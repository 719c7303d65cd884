//! Certificate storage: the layout of the certificate directory, and what a
//! stored certificate tells.

use vstd::prelude::*;
use vstd::string::*;
use x509_parser::prelude::{FromDer, GeneralName, X509Certificate};
use crate::text::{
    append_str, chars_of, ends_with, matches_at, opt_text, string_of, string_of_range,
};

verus! {

/// The days before expiry within which a certificate is renewed.
pub const RENEWAL_DAYS: i64 = 30;

/// Why a certificate could not be read.
#[derive(Debug, Clone, Copy, PartialEq, Eq, Structural)]
pub enum CertError {
    /// The PEM text holds no certificate.
    NoCertificate,
    /// The certificate is no X.509 certificate.
    InvalidCertificate,
    /// The PEM text cannot be read.
    MalformedPem,
}

impl CertError {
    /// A description of the error.
    pub fn message(&self) -> (s: String)
        ensures
            s@ == (match self {
                CertError::NoCertificate => "No certificate found in PEM"@,
                CertError::InvalidCertificate => "Failed to parse certificate"@,
                CertError::MalformedPem => "Failed to read PEM"@,
            }),
    {
        match self {
            CertError::NoCertificate => "No certificate found in PEM".to_owned(),
            CertError::InvalidCertificate => "Failed to parse certificate".to_owned(),
            CertError::MalformedPem => "Failed to read PEM".to_owned(),
        }
    }
}

/// Information about a stored certificate.
#[derive(Debug, Clone)]
pub struct CertificateInfo {
    /// Primary domain name
    pub domain: String,
    /// All domain names in the certificate
    pub domains: Vec<String>,
    /// Certificate file path
    pub cert_path: String,
    /// Private key file path
    pub key_path: String,
    /// Expiry date (RFC 2822 format)
    pub expires_at: String,
    /// Days until expiry
    pub days_until_expiry: i64,
    /// Certificate serial number
    pub serial: String,
}

/// How a certificate stands to its expiry.
#[derive(Debug, Clone, Copy, PartialEq, Eq, Structural)]
pub enum CertificateState {
    /// More than 30 days remain
    Valid,
    /// 30 days or fewer remain, but more than none
    ExpiringSoon,
    /// No day remains
    Expired,
}

/// The state of a certificate with `days` until expiry.
pub open spec fn state_of(days: i64) -> CertificateState {
    if days > 30 {
        CertificateState::Valid
    } else if days > 0 {
        CertificateState::ExpiringSoon
    } else {
        CertificateState::Expired
    }
}

/// The whole days from `now` to `expiry`, both in seconds since the Unix
/// epoch; negative once the expiry is a day or more past.
pub open spec fn days_between(now: i64, expiry: i64) -> int {
    if expiry >= now {
        (expiry - now) / 86400
    } else {
        -((now - expiry) / 86400)
    }
}

impl CertificateState {
    /// The state of a certificate with `days` until expiry.
    pub fn of(days: i64) -> (r: CertificateState)
        ensures
            r == state_of(days),
    {
        if days > 30 {
            CertificateState::Valid
        } else if days > 0 {
            CertificateState::ExpiringSoon
        } else {
            CertificateState::Expired
        }
    }

    /// The name of the state.
    pub fn as_str(&self) -> (s: &'static str)
        ensures
            s@ == (match self {
                CertificateState::Valid => "valid"@,
                CertificateState::ExpiringSoon => "expiring_soon"@,
                CertificateState::Expired => "expired"@,
            }),
    {
        match self {
            CertificateState::Valid => "valid",
            CertificateState::ExpiringSoon => "expiring_soon",
            CertificateState::Expired => "expired",
        }
    }
}

/// Whether a certificate with `days` until expiry is due for renewal:
/// fewer than 30 days remain.
pub fn renewal_due(days: i64) -> (b: bool)
    ensures
        b == (days < 30),
{
    days < RENEWAL_DAYS
}

/// The whole days from `now` to `expiry`.
pub fn days_until(now: i64, expiry: i64) -> (d: i64)
    ensures
        d == days_between(now, expiry),
{
    if expiry >= now {
        let diff: i128 = expiry as i128 - now as i128;
        (diff / 86400) as i64
    } else {
        let diff: i128 = now as i128 - expiry as i128;
        (-(diff / 86400)) as i64
    }
}

// ---------------------------------------------------------------------------
// Reading certificates
// ---------------------------------------------------------------------------

/// What `rustls_pemfile::certs` reads from a PEM text: the DER form of the
/// first certificate, or none where the text holds no certificate; an
/// error where a section of the text cannot be read.
pub uninterp spec fn first_certificate(pem: Seq<char>) -> Result<Option<Seq<u8>>, ()>;

/// What a read of a PEM text holds.
pub open spec fn pem_view(r: Result<Option<Vec<u8>>, ()>) -> Result<Option<Seq<u8>>, ()> {
    match r {
        Ok(Some(d)) => Ok(Some(d@)),
        Ok(None) => Ok(None),
        Err(_) => Err(()),
    }
}

/// Reads the certificates of a PEM text with `rustls_pemfile::certs` and
/// gives the first, or its error.
#[verifier::external_body]
fn pem_first_certificate(pem: &str) -> (r: Result<Option<Vec<u8>>, ()>)
    ensures
        pem_view(r) == first_certificate(pem@),
{
    let mut reader = std::io::BufReader::new(std::io::Cursor::new(pem.as_bytes()));
    match rustls_pemfile::certs(&mut reader).collect::<Result<Vec<_>, _>>() {
        Ok(v) => Ok(v.first().map(|c| c.as_ref().to_vec())),
        Err(_) => Err(()),
    }
}

/// Whether `X509Certificate::from_der` accepts the bytes.
pub uninterp spec fn x509_valid(der: Seq<u8>) -> bool;

/// What `subject_alternative_name()` gives for the certificate: the
/// general names of the extension in order, each with its text where it is
/// a DNS name and without where it is of another kind; none where the
/// certificate has no such extension; an error where the lookup fails.
pub uninterp spec fn x509_general_names(der: Seq<u8>) -> Result<
    Option<Seq<Option<Seq<char>>>>,
    (),
>;

/// The first Common Name of the subject, where it is text.
pub uninterp spec fn x509_common_name(der: Seq<u8>) -> Option<Seq<char>>;

/// The `notAfter` time as seconds since the Unix epoch.
pub uninterp spec fn x509_not_after(der: Seq<u8>) -> i64;

/// The `notAfter` time in RFC 2822 form, where it has one.
pub uninterp spec fn x509_not_after_text(der: Seq<u8>) -> Option<Seq<char>>;

/// The bytes of the serial number, most significant first, as
/// `raw_serial()` gives them.
pub uninterp spec fn x509_serial(der: Seq<u8>) -> Seq<u8>;

pub open spec fn texts(v: Seq<String>) -> Seq<Seq<char>> {
    Seq::new(v.len(), |i: int| v[i]@)
}

/// The texts of a list of general names.
pub open spec fn name_views(v: Seq<Option<String>>) -> Seq<Option<Seq<char>>> {
    Seq::new(v.len(), |i: int| opt_text(v[i]))
}

/// What a lookup of the general names holds.
pub open spec fn lookup_view(r: Result<Option<Vec<Option<String>>>, ()>) -> Result<
    Option<Seq<Option<Seq<char>>>>,
    (),
> {
    match r {
        Ok(Some(v)) => Ok(Some(name_views(v@))),
        Ok(None) => Ok(None),
        Err(_) => Err(()),
    }
}

/// Parses the certificate with `X509Certificate::from_der` and hands out
/// what `subject_alternative_name()` gives, every general name as a plain
/// value. Nothing where the bytes are no certificate.
#[verifier::external_body]
fn read_general_names(der: &Vec<u8>) -> (r: Option<Result<Option<Vec<Option<String>>>, ()>>)
    ensures
        r is Some <==> x509_valid(der@),
        r is Some ==> lookup_view(r->0) == x509_general_names(der@),
{
    let (_, cert) = X509Certificate::from_der(der).ok()?;
    Some(match cert.subject_alternative_name() {
        Ok(Some(san)) => Ok(Some(san.value.general_names.iter().map(|n| match n {
            GeneralName::DNSName(dns) => Some(dns.to_string()),
            _ => None,
        }).collect())),
        Ok(None) => Ok(None),
        Err(_) => Err(()),
    })
}

/// The DNS names among general names, in their order.
pub open spec fn dns_among(names: Seq<Option<Seq<char>>>) -> Seq<Seq<char>>
    decreases names.len(),
{
    if names.len() == 0 {
        Seq::empty()
    } else {
        match names.last() {
            Some(n) => dns_among(names.drop_last()).push(n),
            None => dns_among(names.drop_last()),
        }
    }
}

/// The DNS names that a lookup of the general names gives: those of the
/// extension; none where there is no extension or the lookup failed.
pub open spec fn dns_names_of(lookup: Result<Option<Seq<Option<Seq<char>>>>, ()>) -> Seq<
    Seq<char>,
> {
    match lookup {
        Ok(Some(names)) => dns_among(names),
        _ => Seq::empty(),
    }
}

/// The DNS names that a lookup of the general names gives.
pub fn dns_names(lookup: Result<Option<Vec<Option<String>>>, ()>) -> (r: Vec<String>)
    ensures
        texts(r@) == dns_names_of(lookup_view(lookup)),
{
    let mut out: Vec<String> = Vec::new();
    assert(texts(out@) =~= Seq::empty());
    match lookup {
        Ok(Some(names)) => {
            let ghost all = name_views(names@);
            let mut i: usize = 0;
            assert(all.take(0) =~= Seq::empty());
            while i < names.len()
                invariant
                    i <= names.len(),
                    all == name_views(names@),
                    texts(out@) == dns_among(all.take(i as int)),
                decreases names.len() - i,
            {
                proof {
                    assert(all.take(i + 1).drop_last() =~= all.take(i as int));
                    assert(all.take(i + 1).last() == opt_text(names@[i as int]));
                }
                match &names[i] {
                    Some(n) => {
                        let ghost before = texts(out@);
                        out.push(n.clone());
                        assert(texts(out@) =~= before.push(n@));
                    },
                    None => {},
                }
                i += 1;
            }
            assert(all.take(all.len() as int) =~= all);
        },
        _ => {},
    }
    out
}

/// Parses the certificate and gives the first of
/// `subject().iter_common_name()` that `as_str` reads.
#[verifier::external_body]
fn read_common_name(der: &Vec<u8>) -> (r: Option<String>)
    requires
        x509_valid(der@),
    ensures
        opt_text(r) == x509_common_name(der@),
{
    let (_, cert) = X509Certificate::from_der(der).ok()?;
    let cn = cert.subject().iter_common_name().next()?;
    cn.as_str().ok().map(|s| s.to_string())
}

/// Parses the certificate and gives `validity().not_after.timestamp()`.
#[verifier::external_body]
fn read_not_after(der: &Vec<u8>) -> (r: i64)
    requires
        x509_valid(der@),
    ensures
        r == x509_not_after(der@),
{
    match X509Certificate::from_der(der) {
        Ok((_, cert)) => cert.validity().not_after.timestamp(),
        Err(_) => 0,
    }
}

/// Parses the certificate and gives `validity().not_after.to_rfc2822()`.
#[verifier::external_body]
fn read_not_after_text(der: &Vec<u8>) -> (r: Option<String>)
    requires
        x509_valid(der@),
    ensures
        opt_text(r) == x509_not_after_text(der@),
{
    let (_, cert) = X509Certificate::from_der(der).ok()?;
    cert.validity().not_after.to_rfc2822().ok()
}

/// Parses the certificate and gives the bytes of `raw_serial()`.
#[verifier::external_body]
fn read_serial(der: &Vec<u8>) -> (r: Vec<u8>)
    requires
        x509_valid(der@),
    ensures
        r@ == x509_serial(der@),
{
    match X509Certificate::from_der(der) {
        Ok((_, cert)) => cert.raw_serial().to_vec(),
        Err(_) => Vec::new(),
    }
}

/// The hexadecimal digit of a number below 16, in upper case.
pub open spec fn upper_hex_digit(v: int) -> char {
    if v < 10 {
        ((0x30 + v) as u8) as char
    } else {
        ((0x41 + v - 10) as u8) as char
    }
}

/// The index of the first byte at or after `from` that is not zero, or
/// the number of bytes.
pub open spec fn first_significant(b: Seq<u8>, from: int) -> int
    decreases b.len() - from,
{
    if 0 <= from < b.len() && b[from] == 0 {
        first_significant(b, from + 1)
    } else {
        from
    }
}

/// Two hexadecimal digits in upper case for every byte, in order.
pub open spec fn upper_hex(b: Seq<u8>) -> Seq<char>
    decreases b.len(),
{
    if b.len() == 0 {
        Seq::empty()
    } else {
        upper_hex(b.drop_last()) + seq![
            upper_hex_digit(b.last() as int / 16),
            upper_hex_digit(b.last() as int % 16),
        ]
    }
}

/// The serial number that the bytes are, most significant first, as a
/// number in upper-case hexadecimal: without zeros in front, and `0` where
/// it is zero.
pub open spec fn serial_text(b: Seq<u8>) -> Seq<char> {
    let k = first_significant(b, 0);
    if k >= b.len() {
        seq!['0']
    } else if b[k] < 16 {
        upper_hex(b.skip(k)).skip(1)
    } else {
        upper_hex(b.skip(k))
    }
}

fn upper_digit(v: u8) -> (c: char)
    requires
        v < 16,
    ensures
        c == upper_hex_digit(v as int),
{
    if v < 10 {
        (0x30 + v) as char
    } else {
        (0x41 + v - 10) as char
    }
}

/// The serial number that the bytes are, in upper-case hexadecimal.
pub fn serial_string(bytes: &Vec<u8>) -> (r: String)
    ensures
        r@ == serial_text(bytes@),
{
    let mut k: usize = 0;
    while k < bytes.len() && bytes[k] == 0
        invariant
            k <= bytes.len(),
            first_significant(bytes@, 0) == first_significant(bytes@, k as int),
        decreases bytes.len() - k,
    {
        k += 1;
    }
    if k >= bytes.len() {
        let mut zero: Vec<char> = Vec::new();
        zero.push('0');
        assert(zero@ =~= seq!['0']);
        return string_of(&zero);
    }
    let ghost rest = bytes@.skip(k as int);
    let mut out: Vec<char> = Vec::new();
    let mut i: usize = k;
    assert(rest.take(0) =~= Seq::empty());
    while i < bytes.len()
        invariant
            k <= i <= bytes.len(),
            rest == bytes@.skip(k as int),
            out@ == upper_hex(rest.take(i - k)),
        decreases bytes.len() - i,
    {
        proof {
            assert(rest.take(i - k + 1).drop_last() =~= rest.take(i - k));
            assert(rest.take(i - k + 1).last() == bytes@[i as int]);
        }
        out.push(upper_digit(bytes[i] / 16));
        out.push(upper_digit(bytes[i] % 16));
        i += 1;
    }
    assert(rest.take(rest.len() as int) =~= rest);
    if bytes[k] < 16 {
        let n = out.len();
        proof {
            lemma_upper_hex_len(rest);
        }
        let r = string_of_range(&out, 1, n);
        assert(out@.subrange(1, n as int) =~= out@.skip(1));
        r
    } else {
        string_of(&out)
    }
}

/// Two digits stand for every byte.
pub proof fn lemma_upper_hex_len(b: Seq<u8>)
    ensures
        upper_hex(b).len() == 2 * b.len(),
    decreases b.len(),
{
    if b.len() > 0 {
        lemma_upper_hex_len(b.drop_last());
    }
}

/// What a certificate tells.
pub struct CertificateFacts {
    pub domains: Seq<Seq<char>>,
    pub expires_at: Seq<char>,
    pub days_until_expiry: i64,
    pub serial: Seq<char>,
}

/// The facts of a certificate from what was read of it: the domains are
/// the DNS names of the SAN extension, or the Common Name alone where
/// there are none; the expiry is shown as `Unknown` where it has no
/// RFC 2822 form.
pub open spec fn facts_of(
    dns_names: Seq<Seq<char>>,
    common_name: Option<Seq<char>>,
    not_after: i64,
    not_after_text: Option<Seq<char>>,
    serial: Seq<char>,
    now: i64,
) -> CertificateFacts {
    CertificateFacts {
        domains: if dns_names.len() > 0 {
            dns_names
        } else {
            match common_name {
                Some(cn) => seq![cn],
                None => Seq::empty(),
            }
        },
        expires_at: match not_after_text {
            Some(t) => t,
            None => "Unknown"@,
        },
        days_until_expiry: days_between(now, not_after) as i64,
        serial,
    }
}

/// The facts of the first certificate of a PEM text at the time `now`. A
/// lookup of the general names that fails counts like an extension that is
/// not there.
pub open spec fn certificate_facts(pem: Seq<char>, now: i64) -> Result<CertificateFacts, CertError> {
    match first_certificate(pem) {
        Err(_) => Err(CertError::MalformedPem),
        Ok(None) => Err(CertError::NoCertificate),
        Ok(Some(der)) => if !x509_valid(der) {
            Err(CertError::InvalidCertificate)
        } else {
            Ok(
                facts_of(
                    dns_names_of(x509_general_names(der)),
                    x509_common_name(der),
                    x509_not_after(der),
                    x509_not_after_text(der),
                    serial_text(x509_serial(der)),
                    now,
                ),
            )
        },
    }
}

/// The facts of a certificate from what was read of it.
pub fn assemble_facts(
    dns_names: Vec<String>,
    common_name: Option<String>,
    not_after: i64,
    not_after_text: Option<String>,
    serial: String,
    now: i64,
) -> (r: (Vec<String>, String, i64, String))
    ensures
        ({
            let f = facts_of(
                texts(dns_names@),
                opt_text(common_name),
                not_after,
                opt_text(not_after_text),
                serial@,
                now,
            );
            &&& texts(r.0@) == f.domains
            &&& r.1@ == f.expires_at
            &&& r.2 == f.days_until_expiry
            &&& r.3@ == f.serial
        }),
{
    let mut domains = dns_names;
    if domains.len() == 0 {
        match common_name {
            Some(cn) => {
                domains.push(cn);
                assert(texts(domains@) =~= seq![cn@]);
            },
            None => {
                assert(texts(domains@) =~= Seq::empty());
            },
        }
    }
    let expires_at = match not_after_text {
        Some(t) => t,
        None => "Unknown".to_owned(),
    };
    (domains, expires_at, days_until(now, not_after), serial)
}

/// Parse certificate information from PEM, at the time `now` in seconds
/// since the Unix epoch: domains, expiry, days until expiry, serial.
pub fn parse_certificate_info(pem: &str, now: i64) -> (r: Result<
    (Vec<String>, String, i64, String),
    CertError,
>)
    ensures
        match r {
            Ok(t) => certificate_facts(pem@, now) is Ok && ({
                let f = certificate_facts(pem@, now)->Ok_0;
                &&& texts(t.0@) == f.domains
                &&& t.1@ == f.expires_at
                &&& t.2 == f.days_until_expiry
                &&& t.3@ == f.serial
            }),
            Err(e) => certificate_facts(pem@, now) == Err::<CertificateFacts, CertError>(e),
        },
{
    let der = match pem_first_certificate(pem) {
        Ok(Some(d)) => d,
        Ok(None) => {
            return Err(CertError::NoCertificate);
        },
        Err(_) => {
            return Err(CertError::MalformedPem);
        },
    };
    let lookup = match read_general_names(&der) {
        Some(l) => l,
        None => {
            return Err(CertError::InvalidCertificate);
        },
    };
    Ok(
        assemble_facts(
            dns_names(lookup),
            read_common_name(&der),
            read_not_after(&der),
            read_not_after_text(&der),
            serial_string(&read_serial(&der)),
            now,
        ),
    )
}

// ---------------------------------------------------------------------------
// Directory layout
// ---------------------------------------------------------------------------

/// The path of the certificate of a domain: `<cert-dir>/<domain>.pem`.
pub open spec fn cert_path_text(dir: Seq<char>, domain: Seq<char>) -> Seq<char> {
    dir + seq!['/'] + domain + ".pem"@
}

/// The path of the private key of a domain: `<cert-dir>/<domain>-key.pem`.
pub open spec fn key_path_text(dir: Seq<char>, domain: Seq<char>) -> Seq<char> {
    dir + seq!['/'] + domain + "-key.pem"@
}

/// The path under which the prior version of a file is kept.
pub open spec fn backup_path_text(path: Seq<char>) -> Seq<char> {
    path + ".backup"@
}

/// The domain whose certificate a file of the directory holds: the name
/// without `.pem`, for a name that ends in `.pem` but not in `-key.pem`.
pub open spec fn domain_of_file(name: Seq<char>) -> Option<Seq<char>> {
    if ends_with(name, ".pem"@) && !ends_with(name, "-key.pem"@) && !ends_with(name, ".backup"@) {
        Some(name.take(name.len() - 4))
    } else {
        None
    }
}

/// Certificate storage manager.
#[derive(Debug, Clone)]
pub struct CertificateStorage {
    cert_dir: String,
}

fn has_suffix(v: &Vec<char>, suffix: &str) -> (b: bool)
    ensures
        b == ends_with(v@, suffix@),
{
    let s = chars_of(suffix);
    if s.len() > v.len() {
        return false;
    }
    matches_at(v, &s, v.len() - s.len())
}

impl CertificateStorage {
    /// The directory of the store.
    pub closed spec fn dir(&self) -> Seq<char> {
        self.cert_dir@
    }

    /// Create a new certificate storage manager.
    pub fn new(cert_dir: String) -> (r: Result<Self, CertError>)
        ensures
            r is Ok,
            r->Ok_0.dir() == cert_dir@,
    {
        Ok(CertificateStorage { cert_dir })
    }

    /// The directory of the store.
    pub fn cert_dir(&self) -> (s: &str)
        ensures
            s@ == self.dir(),
    {
        self.cert_dir.as_str()
    }

    /// Get certificate file path.
    pub fn cert_path(&self, domain: &str) -> (p: String)
        ensures
            p@ == cert_path_text(self.dir(), domain@),
    {
        let mut out: Vec<char> = Vec::new();
        append_str(&mut out, self.cert_dir.as_str());
        out.push('/');
        append_str(&mut out, domain);
        append_str(&mut out, ".pem");
        assert(out@ =~= cert_path_text(self.dir(), domain@));
        string_of(&out)
    }

    /// Get private key file path.
    pub fn key_path(&self, domain: &str) -> (p: String)
        ensures
            p@ == key_path_text(self.dir(), domain@),
    {
        let mut out: Vec<char> = Vec::new();
        append_str(&mut out, self.cert_dir.as_str());
        out.push('/');
        append_str(&mut out, domain);
        append_str(&mut out, "-key.pem");
        assert(out@ =~= key_path_text(self.dir(), domain@));
        string_of(&out)
    }

    /// The path under which the prior version of a file is kept.
    pub fn backup_path(path: &str) -> (p: String)
        ensures
            p@ == backup_path_text(path@),
    {
        let mut out: Vec<char> = Vec::new();
        append_str(&mut out, path);
        append_str(&mut out, ".backup");
        assert(out@ =~= backup_path_text(path@));
        string_of(&out)
    }

    /// The domain whose certificate a file of the directory holds.
    pub fn certificate_domain(file_name: &str) -> (r: Option<String>)
        ensures
            match r {
                Some(d) => domain_of_file(file_name@) == Some(d@),
                None => domain_of_file(file_name@) is None,
            },
    {
        let v = chars_of(file_name);
        proof {
            reveal_strlit(".pem");
        }
        if has_suffix(&v, ".pem") && !has_suffix(&v, "-key.pem") && !has_suffix(&v, ".backup") {
            let d = string_of_range(&v, 0, v.len() - 4);
            assert(v@.subrange(0, v.len() - 4) == v@.take(v.len() - 4));
            Some(d)
        } else {
            None
        }
    }

    /// The information on the certificate of `domain`, read from its PEM
    /// text at the time `now`.
    pub fn certificate_info(&self, domain: &str, cert_pem: &str, now: i64) -> (r: Result<
        CertificateInfo,
        CertError,
    >)
        ensures
            match r {
                Ok(info) => certificate_facts(cert_pem@, now) is Ok && ({
                    let f = certificate_facts(cert_pem@, now)->Ok_0;
                    &&& info.domain@ == domain@
                    &&& texts(info.domains@) == f.domains
                    &&& info.cert_path@ == cert_path_text(self.dir(), domain@)
                    &&& info.key_path@ == key_path_text(self.dir(), domain@)
                    &&& info.expires_at@ == f.expires_at
                    &&& info.days_until_expiry == f.days_until_expiry
                    &&& info.serial@ == f.serial
                }),
                Err(e) => certificate_facts(cert_pem@, now) == Err::<CertificateFacts, CertError>(e),
            },
    {
        match parse_certificate_info(cert_pem, now) {
            Err(e) => Err(e),
            Ok((domains, expires_at, days_until_expiry, serial)) => Ok(
                CertificateInfo {
                    domain: domain.to_owned(),
                    domains,
                    cert_path: self.cert_path(domain),
                    key_path: self.key_path(domain),
                    expires_at,
                    days_until_expiry,
                    serial,
                },
            ),
        }
    }
}

} // verus!
