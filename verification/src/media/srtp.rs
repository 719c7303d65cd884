//! SRTP (Secure RTP) configuration and pass-through.
//!
//! Key material is carried as it is; it is never read.

use vstd::prelude::*;
use vstd::string::*;
use crate::numeral::{decimal, push_decimal};
use crate::text::{
    append_str, chars_of, matches_at, occurs_at, split_words, string_of, string_of_range, views,
    words,
};

verus! {

/// SRTP configuration.
#[derive(Debug, Clone)]
pub struct SrtpConfig {
    pub enabled: bool,
    pub crypto_suite: String,
    pub key_params: Option<String>,
}

/// What an SRTP configuration holds.
pub struct SrtpView {
    pub enabled: bool,
    pub crypto_suite: Seq<char>,
    pub key_params: Option<Seq<char>>,
}

impl View for SrtpConfig {
    type V = SrtpView;

    open spec fn view(&self) -> SrtpView {
        SrtpView {
            enabled: self.enabled,
            crypto_suite: self.crypto_suite@,
            key_params: match self.key_params {
                Some(k) => Some(k@),
                None => None,
            },
        }
    }
}

/// The configuration that a crypto attribute `tag suite inline:key` gives:
/// none where it has fewer than three parts, or where the third does not
/// start with `inline:`.
pub open spec fn crypto_config(attr: Seq<char>) -> Option<SrtpView> {
    let parts = words(attr);
    if parts.len() >= 3 && occurs_at(parts[2], "inline:"@, 0) {
        Some(SrtpView { enabled: true, crypto_suite: parts[1], key_params: Some(parts[2].skip(7)) })
    } else {
        None
    }
}

/// The crypto attribute of a configuration under a tag.
pub open spec fn crypto_text(c: SrtpView, tag: u32) -> Seq<char> {
    let head = "a=crypto:"@ + decimal(tag as nat) + seq![' '] + c.crypto_suite;
    match c.key_params {
        Some(key) => head + " inline:"@ + key,
        None => head,
    }
}

impl SrtpConfig {
    /// SRTP switched off, with the suite `AES_CM_128_HMAC_SHA1_80`.
    pub fn new() -> (r: Self)
        ensures
            r@ == (SrtpView {
                enabled: false,
                crypto_suite: "AES_CM_128_HMAC_SHA1_80"@,
                key_params: None,
            }),
    {
        SrtpConfig {
            enabled: false,
            crypto_suite: "AES_CM_128_HMAC_SHA1_80".to_owned(),
            key_params: None,
        }
    }

    pub fn with_crypto_suite(self, suite: String) -> (r: Self)
        ensures
            r@ == (SrtpView { crypto_suite: suite@, ..self@ }),
    {
        let mut r = self;
        r.crypto_suite = suite;
        r
    }

    pub fn enable(self) -> (r: Self)
        ensures
            r@ == (SrtpView { enabled: true, ..self@ }),
    {
        let mut r = self;
        r.enabled = true;
        r
    }

    /// Parse SRTP crypto attribute from SDP.
    /// Example: a=crypto:1 AES_CM_128_HMAC_SHA1_80 inline:key
    pub fn from_crypto_attribute(attr: &str) -> (r: Option<Self>)
        ensures
            match r {
                Some(c) => crypto_config(attr@) == Some(c@),
                None => crypto_config(attr@) is None,
            },
    {
        let v = chars_of(attr);
        let parts = split_words(&v);
        if parts.len() < 3 {
            return None;
        }
        assert(views(parts@)[1] == parts@[1]@);
        assert(views(parts@)[2] == parts@[2]@);
        let prefix = chars_of("inline:");
        proof {
            reveal_strlit("inline:");
        }
        if !matches_at(&parts[2], &prefix, 0) {
            return None;
        }
        let key = string_of_range(&parts[2], 7, parts[2].len());
        assert(parts@[2]@.subrange(7, parts@[2]@.len() as int) == parts@[2]@.skip(7));
        Some(SrtpConfig { enabled: true, crypto_suite: string_of(&parts[1]), key_params: Some(key) })
    }

    /// Generate crypto attribute for SDP.
    pub fn to_crypto_attribute(&self, tag: u32) -> (s: String)
        ensures
            s@ == crypto_text(self@, tag),
    {
        let mut out: Vec<char> = Vec::new();
        append_str(&mut out, "a=crypto:");
        push_decimal(&mut out, tag as u64);
        out.push(' ');
        append_str(&mut out, self.crypto_suite.as_str());
        match &self.key_params {
            Some(key) => {
                append_str(&mut out, " inline:");
                append_str(&mut out, key.as_str());
            },
            None => {},
        }
        assert(out@ =~= crypto_text(self@, tag));
        string_of(&out)
    }
}

impl Default for SrtpConfig {
    fn default() -> (r: Self)
        ensures
            r@ == (SrtpView {
                enabled: false,
                crypto_suite: "AES_CM_128_HMAC_SHA1_80"@,
                key_params: None,
            }),
    {
        SrtpConfig::new()
    }
}

/// SRTP pass-through handler.
/// In B2BUA mode, SRTP media passes through without decryption.
pub struct SrtpPassthrough;

impl SrtpPassthrough {
    /// Check if both legs support SRTP: both have it enabled, with the same
    /// suite.
    pub fn is_compatible(leg_a: &SrtpConfig, leg_b: &SrtpConfig) -> (b: bool)
        ensures
            b == (leg_a.enabled && leg_b.enabled && leg_a.crypto_suite@ == leg_b.crypto_suite@),
    {
        leg_a.enabled && leg_b.enabled && crate::text::str_eq(
            leg_a.crypto_suite.as_str(),
            leg_b.crypto_suite.as_str(),
        )
    }

    /// Generate compatible SRTP offer for the second leg: the offer of the
    /// first leg as it is. The key material passes from end to end; it is
    /// copied and never looked at.
    pub fn create_compatible_offer(source: &SrtpConfig) -> (r: SrtpConfig)
        ensures
            r@ == source@,
    {
        SrtpConfig {
            enabled: source.enabled,
            crypto_suite: source.crypto_suite.clone(),
            key_params: match &source.key_params {
                Some(k) => Some(k.clone()),
                None => None,
            },
        }
    }
}

} // verus!
