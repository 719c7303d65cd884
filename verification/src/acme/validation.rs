//! Challenge validation for ACME: what to publish for an HTTP-01 or a
//! DNS-01 challenge, and what to answer to the validation request.

use vstd::prelude::*;
use vstd::string::*;
use vstd::utf8::encode_utf8;
use sha2::Digest;
use base64::Engine;
use crate::text::{append_str, chars_of, matches_at, occurs_at, str_eq, string_of, string_of_range};

verus! {

/// Type of ACME challenge.
#[derive(Debug, Clone, Copy, PartialEq, Eq, Structural)]
pub enum ChallengeType {
    /// HTTP-01 challenge (requires port 80)
    Http01,
    /// DNS-01 challenge (requires DNS access)
    Dns01,
}

impl ChallengeType {
    /// The name of the challenge type in the protocol.
    pub fn as_str(&self) -> (s: &'static str)
        ensures
            s@ == (match self {
                ChallengeType::Http01 => "http-01"@,
                ChallengeType::Dns01 => "dns-01"@,
            }),
    {
        match self {
            ChallengeType::Http01 => "http-01",
            ChallengeType::Dns01 => "dns-01",
        }
    }

    /// The challenge type with the given name.
    pub fn from_name(name: &str) -> (r: Option<ChallengeType>)
        ensures
            r == (if name@ == "http-01"@ {
                Some(ChallengeType::Http01)
            } else if name@ == "dns-01"@ {
                Some(ChallengeType::Dns01)
            } else {
                None
            }),
    {
        if str_eq(name, "http-01") {
            Some(ChallengeType::Http01)
        } else if str_eq(name, "dns-01") {
            Some(ChallengeType::Dns01)
        } else {
            None
        }
    }
}

/// Result of challenge validation.
#[derive(Debug, Clone)]
pub struct ValidationResult {
    pub success: bool,
    pub message: String,
}

/// The SHA-256 digest of a byte string.
pub uninterp spec fn sha256_hash(data: Seq<u8>) -> Seq<u8>;

/// `Sha256::digest` gives the SHA-256 digest of its input, 32 bytes.
#[verifier::external_body]
fn sha256_of(data: &Vec<u8>) -> (r: Vec<u8>)
    ensures
        r@ == sha256_hash(data@),
        r@.len() == 32,
{
    sha2::Sha256::digest(data).to_vec()
}

/// The character for a number below 64 in the URL-safe base64 alphabet:
/// `A`-`Z`, `a`-`z`, `0`-`9`, `-`, `_`.
pub open spec fn base64url_digit(v: int) -> char {
    if v < 26 {
        ((0x41 + v) as u8) as char
    } else if v < 52 {
        ((0x61 + v - 26) as u8) as char
    } else if v < 62 {
        ((0x30 + v - 52) as u8) as char
    } else if v == 62 {
        '-'
    } else {
        '_'
    }
}

/// The base64 text of a byte string in the URL-safe alphabet, without
/// padding: four characters for every three bytes, most significant bits
/// first, and two or three characters for one or two bytes that are left.
pub open spec fn base64url_text(data: Seq<u8>) -> Seq<char>
    decreases data.len(),
{
    if data.len() == 0 {
        Seq::empty()
    } else if data.len() == 1 {
        seq![base64url_digit(data[0] as int / 4), base64url_digit((data[0] as int % 4) * 16)]
    } else if data.len() == 2 {
        seq![
            base64url_digit(data[0] as int / 4),
            base64url_digit((data[0] as int % 4) * 16 + data[1] as int / 16),
            base64url_digit((data[1] as int % 16) * 4),
        ]
    } else {
        seq![
            base64url_digit(data[0] as int / 4),
            base64url_digit((data[0] as int % 4) * 16 + data[1] as int / 16),
            base64url_digit((data[1] as int % 16) * 4 + data[2] as int / 64),
            base64url_digit(data[2] as int % 64),
        ] + base64url_text(data.skip(3))
    }
}

/// `URL_SAFE_NO_PAD.encode` gives the base64 text of its input in the
/// URL-safe alphabet, without padding. It fails only where the length of
/// the text cannot be counted, which no vector is long enough for.
#[verifier::external_body]
fn base64url_of(data: &Vec<u8>) -> (r: String)
    ensures
        r@ == base64url_text(data@),
{
    base64::engine::general_purpose::URL_SAFE_NO_PAD.encode(data)
}

/// The value of the TXT record that proves control of a domain:
/// `base64url(sha256(key-authorization))`.
pub open spec fn txt_value(key_authorization: Seq<char>) -> Seq<char> {
    base64url_text(sha256_hash(encode_utf8(key_authorization)))
}

/// The name of the TXT record for a domain: `_acme-challenge.<domain>`.
pub open spec fn txt_name(domain: Seq<char>) -> Seq<char> {
    "_acme-challenge."@ + domain
}

/// The path under which the key authorization of a token is served.
pub open spec fn challenge_path(token: Seq<char>) -> Seq<char> {
    "/.well-known/acme-challenge/"@ + token
}

/// What is to be done outside for a challenge.
#[derive(Debug, Clone)]
pub enum ChallengeSetup {
    /// Serve the key authorization under the path of the token.
    Http { path: String },
    /// Publish a TXT record, and go on once the operator confirms it.
    Dns { name: String, value: String },
}

pub open spec fn pair_views(p: Seq<(String, String)>) -> Seq<(Seq<char>, Seq<char>)> {
    Seq::new(p.len(), |i: int| (p[i].0@, p[i].1@))
}

/// The index at or after `from` of the entry of `token`, or the number of
/// entries.
pub open spec fn token_index(t: Seq<(Seq<char>, Seq<char>)>, token: Seq<char>, from: int) -> int
    decreases t.len() - from,
{
    if 0 <= from < t.len() && t[from].0 != token {
        token_index(t, token, from + 1)
    } else {
        from
    }
}

/// The key authorization stored for `token`.
pub open spec fn stored(t: Seq<(Seq<char>, Seq<char>)>, token: Seq<char>) -> Option<Seq<char>> {
    let i = token_index(t, token, 0);
    if 0 <= i < t.len() {
        Some(t[i].1)
    } else {
        None
    }
}

/// The tokens with `token` mapped to `value`.
pub open spec fn with_token(
    t: Seq<(Seq<char>, Seq<char>)>,
    token: Seq<char>,
    value: Seq<char>,
) -> Seq<(Seq<char>, Seq<char>)> {
    let i = token_index(t, token, 0);
    if 0 <= i < t.len() {
        t.update(i, (token, value))
    } else {
        t.push((token, value))
    }
}

/// The tokens without `token`.
pub open spec fn without_token(t: Seq<(Seq<char>, Seq<char>)>, token: Seq<char>) -> Seq<
    (Seq<char>, Seq<char>),
> {
    let i = token_index(t, token, 0);
    if 0 <= i < t.len() {
        t.remove(i)
    } else {
        t
    }
}

pub proof fn lemma_token_index_is(
    t: Seq<(Seq<char>, Seq<char>)>,
    token: Seq<char>,
    from: int,
    r: int,
)
    requires
        0 <= from <= r <= t.len(),
        forall|j: int| from <= j < r ==> (#[trigger] t[j]).0 != token,
        r < t.len() ==> t[r].0 == token,
    ensures
        token_index(t, token, from) == r,
    decreases r - from,
{
    if from < r {
        lemma_token_index_is(t, token, from + 1, r);
    }
}

/// A token that was stored is found with its value, and is gone once it is
/// removed, where no token stands twice.
pub proof fn lemma_token_round_trip(
    t: Seq<(Seq<char>, Seq<char>)>,
    token: Seq<char>,
    value: Seq<char>,
)
    requires
        forall|i: int, j: int| 0 <= i < j < t.len() ==> t[i].0 != t[j].0,
    ensures
        stored(with_token(t, token, value), token) == Some(value),
        stored(without_token(with_token(t, token, value), token), token) is None,
{
    let i = token_index(t, token, 0);
    lemma_token_index(t, token, 0);
    let w = with_token(t, token, value);
    lemma_token_index_is(w, token, 0, i);
    let r = without_token(w, token);
    assert(r == w.remove(i));
    assert forall|j: int| 0 <= j < r.len() implies (#[trigger] r[j]).0 != token by {
        if j < i {
            assert(r[j] == t[j]);
        } else {
            assert(r[j] == w[j + 1]);
            assert(w[j + 1] == t[j + 1]);
        }
    }
    lemma_token_index_is(r, token, 0, r.len() as int);
}

pub proof fn lemma_token_index(t: Seq<(Seq<char>, Seq<char>)>, token: Seq<char>, from: int)
    requires
        0 <= from <= t.len(),
    ensures
        from <= token_index(t, token, from) <= t.len(),
        forall|j: int| from <= j < token_index(t, token, from) ==> t[j].0 != token,
        token_index(t, token, from) < t.len() ==> t[token_index(t, token, from)].0 == token,
    decreases t.len() - from,
{
    if from < t.len() && t[from].0 != token {
        lemma_token_index(t, token, from + 1);
    }
}

/// Challenge validator.
#[derive(Debug, Clone)]
pub struct ChallengeValidator {
    challenge_type: ChallengeType,
    http_port: u16,
    tokens: Vec<(String, String)>,
}

impl ChallengeValidator {
    /// The key authorizations by token.
    pub closed spec fn tokens(&self) -> Seq<(Seq<char>, Seq<char>)> {
        pair_views(self.tokens@)
    }

    pub closed spec fn kind(&self) -> ChallengeType {
        self.challenge_type
    }

    pub closed spec fn port(&self) -> u16 {
        self.http_port
    }

    /// Create a new challenge validator.
    pub fn new(challenge_type: ChallengeType, http_port: u16) -> (r: Self)
        ensures
            r.kind() == challenge_type,
            r.port() == http_port,
            r.tokens() == Seq::<(Seq<char>, Seq<char>)>::empty(),
    {
        let r = ChallengeValidator { challenge_type, http_port, tokens: Vec::new() };
        assert(pair_views(r.tokens@) =~= Seq::empty());
        r
    }

    pub fn challenge_type(&self) -> (r: ChallengeType)
        ensures
            r == self.kind(),
    {
        self.challenge_type
    }

    pub fn http_port(&self) -> (r: u16)
        ensures
            r == self.port(),
    {
        self.http_port
    }

    fn position(&self, token: &str) -> (i: usize)
        ensures
            i == token_index(self.tokens(), token@, 0),
            i <= self.tokens.len(),
    {
        let mut i: usize = 0;
        while i < self.tokens.len()
            invariant
                i <= self.tokens.len(),
                forall|j: int| 0 <= j < i ==> (#[trigger] self.tokens()[j]).0 != token@,
            decreases self.tokens.len() - i,
        {
            if str_eq(self.tokens[i].0.as_str(), token) {
                proof {
                    lemma_token_index_is(self.tokens(), token@, 0, i as int);
                }
                return i;
            }
            i += 1;
        }
        proof {
            lemma_token_index_is(self.tokens(), token@, 0, i as int);
        }
        i
    }

    /// Set up challenge validation. For HTTP-01 the key authorization is
    /// stored under the token; for DNS-01 the TXT record to publish is
    /// worked out, and nothing is stored.
    pub fn setup(&mut self, domain: &str, token: &str, key_authorization: &str) -> (r: ChallengeSetup)
        ensures
            final(self).kind() == old(self).kind(),
            final(self).port() == old(self).port(),
            final(self).tokens() == (match old(self).kind() {
                ChallengeType::Http01 => with_token(old(self).tokens(), token@, key_authorization@),
                ChallengeType::Dns01 => old(self).tokens(),
            }),
            match r {
                ChallengeSetup::Http { path } => old(self).kind() == ChallengeType::Http01 && path@
                    == challenge_path(token@),
                ChallengeSetup::Dns { name, value } => old(self).kind() == ChallengeType::Dns01
                    && name@ == txt_name(domain@) && value@ == txt_value(key_authorization@),
            },
    {
        match self.challenge_type {
            ChallengeType::Http01 => {
                let i = self.position(token);
                let ghost before = self.tokens();
                let entry = (token.to_owned(), key_authorization.to_owned());
                if i < self.tokens.len() {
                    self.tokens[i] = entry;
                    assert(self.tokens() =~= before.update(i as int, (token@, key_authorization@)));
                } else {
                    self.tokens.push(entry);
                    assert(self.tokens() =~= before.push((token@, key_authorization@)));
                }
                let mut path: Vec<char> = Vec::new();
                append_str(&mut path, "/.well-known/acme-challenge/");
                append_str(&mut path, token);
                assert(path@ =~= challenge_path(token@));
                ChallengeSetup::Http { path: string_of(&path) }
            },
            ChallengeType::Dns01 => {
                let mut name: Vec<char> = Vec::new();
                append_str(&mut name, "_acme-challenge.");
                append_str(&mut name, domain);
                assert(name@ =~= txt_name(domain@));
                ChallengeSetup::Dns { name: string_of(&name), value: dns_txt_value(key_authorization) }
            },
        }
    }

    /// Clean up challenge validation: for HTTP-01 the token is forgotten.
    pub fn cleanup(&mut self, domain: &str, token: &str)
        ensures
            final(self).kind() == old(self).kind(),
            final(self).port() == old(self).port(),
            final(self).tokens() == (match old(self).kind() {
                ChallengeType::Http01 => without_token(old(self).tokens(), token@),
                ChallengeType::Dns01 => old(self).tokens(),
            }),
    {
        match self.challenge_type {
            ChallengeType::Http01 => {
                let i = self.position(token);
                if i < self.tokens.len() {
                    let ghost before = self.tokens();
                    let _ = self.tokens.remove(i);
                    assert(self.tokens() =~= before.remove(i as int));
                }
            },
            ChallengeType::Dns01 => {},
        }
    }

    /// Get the key authorization for a token (for the HTTP responder).
    pub fn get_key_authorization(&self, token: &str) -> (r: Option<String>)
        ensures
            match r {
                Some(v) => stored(self.tokens(), token@) == Some(v@),
                None => stored(self.tokens(), token@) is None,
            },
    {
        let i = self.position(token);
        if i < self.tokens.len() {
            Some(self.tokens[i].1.clone())
        } else {
            None
        }
    }

    /// The body with which `GET path` is answered: the key authorization of
    /// the token, where the path is that of a stored token.
    pub fn respond(&self, path: &str) -> (r: Option<String>)
        ensures
            match r {
                Some(v) => occurs_at(path@, "/.well-known/acme-challenge/"@, 0) && stored(
                    self.tokens(),
                    path@.skip(28),
                ) == Some(v@),
                None => !occurs_at(path@, "/.well-known/acme-challenge/"@, 0) || stored(
                    self.tokens(),
                    path@.skip(28),
                ) is None,
            },
    {
        let p = chars_of(path);
        let prefix = chars_of("/.well-known/acme-challenge/");
        proof {
            reveal_strlit("/.well-known/acme-challenge/");
        }
        if !matches_at(&p, &prefix, 0) {
            return None;
        }
        let token = string_of_range(&p, 28, p.len());
        assert(p@.subrange(28, p.len() as int) == p@.skip(28));
        self.get_key_authorization(token.as_str())
    }
}

/// The value of the DNS TXT record for a key authorization.
pub fn dns_txt_value(key_authorization: &str) -> (r: String)
    ensures
        r@ == txt_value(key_authorization@),
{
    let bytes = key_authorization.as_bytes_vec();
    let digest = sha256_of(&bytes);
    base64url_of(&digest)
}

} // verus!
