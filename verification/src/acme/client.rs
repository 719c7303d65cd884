//! The course of a certificate issuance, as a state machine.
//!
//! The caller performs the action of each phase against the ACME server
//! and the disk, and reports what happened; `advance` tells what comes next.

use vstd::prelude::*;
use vstd::string::*;
use crate::acme::storage::{renewal_due, CertError, CertificateStorage};
use crate::text::{append_str, string_of};

verus! {

/// The polls of an authorization or an order after which the issuance is
/// given up.
pub const MAX_POLLS: u32 = 30;

/// The seconds between two polls.
pub const POLL_INTERVAL_SECS: u64 = 2;

/// The directory of the production environment of Let's Encrypt.
pub const PRODUCTION_DIRECTORY: &'static str = "https://acme-v02.api.letsencrypt.org/directory";

/// The directory of the staging environment of Let's Encrypt.
pub const STAGING_DIRECTORY: &'static str =
    "https://acme-staging-v02.api.letsencrypt.org/directory";

/// ACME client configuration.
#[derive(Debug, Clone)]
pub struct AcmeConfig {
    /// Email for Let's Encrypt account
    pub email: String,
    /// Directory to store certificates
    pub cert_dir: String,
    /// Directory to store account credentials
    pub account_dir: String,
    /// Use Let's Encrypt staging environment (for testing)
    pub use_staging: bool,
    /// Challenge validation HTTP server port (for HTTP-01 challenges)
    pub http_challenge_port: u16,
}

impl Default for AcmeConfig {
    fn default() -> (r: Self)
        ensures
            r.email@ == Seq::<char>::empty(),
            r.cert_dir@ == "/etc/rustalk/certs"@,
            r.account_dir@ == "/etc/rustalk/acme"@,
            !r.use_staging,
            r.http_challenge_port == 80,
    {
        AcmeConfig {
            email: String::new(),
            cert_dir: "/etc/rustalk/certs".to_owned(),
            account_dir: "/etc/rustalk/acme".to_owned(),
            use_staging: false,
            http_challenge_port: 80,
        }
    }
}

/// The status of an authorization, as the server reports it.
#[derive(Debug, Clone, Copy, PartialEq, Eq, Structural)]
pub enum AuthorizationStatus {
    Pending,
    Valid,
    Invalid,
    /// Revoked, expired or deactivated
    Other,
}

/// The status of an order, as the server reports it.
#[derive(Debug, Clone, Copy, PartialEq, Eq, Structural)]
pub enum OrderStatus {
    Pending,
    Ready,
    Processing,
    Valid,
    Invalid,
}

/// Why an issuance failed.
#[derive(Debug, Clone, Copy, PartialEq, Eq, Structural)]
pub enum AcmeFailure {
    /// No certificate was asked for any domain.
    NoDomains,
    /// The account could not be loaded or created.
    Account,
    /// The order could not be created.
    Order,
    /// An authorization offers no challenge of the type asked for.
    NoChallenge,
    /// The server found an authorization invalid.
    AuthorizationInvalid,
    /// An authorization was not valid after 30 polls.
    AuthorizationTimeout,
    /// The request or the key could not be made, or the server refused it.
    Finalize,
    /// The order became invalid.
    OrderInvalid,
    /// The order was not valid after 30 polls.
    OrderTimeout,
    /// The server has no certificate for the order.
    NoCertificate,
    /// The certificate or the key could not be written.
    Storage,
    /// An exchange with the server failed.
    Server,
}

impl AcmeFailure {
    /// A description of the failure.
    pub fn message(&self) -> (s: String)
        ensures
            s@ == (match self {
                AcmeFailure::NoDomains => "No domains given"@,
                AcmeFailure::Account => "Failed to load or create ACME account"@,
                AcmeFailure::Order => "Failed to create ACME order"@,
                AcmeFailure::NoChallenge => "No suitable challenge found"@,
                AcmeFailure::AuthorizationInvalid => "Authorization invalid"@,
                AcmeFailure::AuthorizationTimeout => "Authorization timeout"@,
                AcmeFailure::Finalize => "Failed to finalize order"@,
                AcmeFailure::OrderInvalid => "Order became invalid"@,
                AcmeFailure::OrderTimeout => "Certificate issuance timeout"@,
                AcmeFailure::NoCertificate => "No certificate available"@,
                AcmeFailure::Storage => "Failed to save certificate"@,
                AcmeFailure::Server => "ACME server exchange failed"@,
            }),
    {
        match self {
            AcmeFailure::NoDomains => "No domains given".to_owned(),
            AcmeFailure::Account => "Failed to load or create ACME account".to_owned(),
            AcmeFailure::Order => "Failed to create ACME order".to_owned(),
            AcmeFailure::NoChallenge => "No suitable challenge found".to_owned(),
            AcmeFailure::AuthorizationInvalid => "Authorization invalid".to_owned(),
            AcmeFailure::AuthorizationTimeout => "Authorization timeout".to_owned(),
            AcmeFailure::Finalize => "Failed to finalize order".to_owned(),
            AcmeFailure::OrderInvalid => "Order became invalid".to_owned(),
            AcmeFailure::OrderTimeout => "Certificate issuance timeout".to_owned(),
            AcmeFailure::NoCertificate => "No certificate available".to_owned(),
            AcmeFailure::Storage => "Failed to save certificate".to_owned(),
            AcmeFailure::Server => "ACME server exchange failed".to_owned(),
        }
    }
}

/// Where an issuance stands. Each phase but the last two names the action
/// that the caller performs next.
#[derive(Debug, Clone, Copy, PartialEq, Eq, Structural)]
pub enum Phase {
    /// Load the account credentials; create an account where none are
    /// stored, and store its credentials.
    Account,
    /// Create an order with one DNS identifier for each domain, and fetch
    /// its authorizations.
    Order,
    /// Select the challenge of the type asked for in the authorization
    /// `index`, install its key authorization, and tell the server that the
    /// challenge is ready.
    Challenge { index: usize },
    /// Wait two seconds, then fetch the status of the authorization `index`;
    /// `polls` polls were made before.
    PollAuthorization { index: usize, polls: u32 },
    /// Remove what was installed for the authorization `index`, which is
    /// valid.
    Cleanup { index: usize },
    /// Remove what was installed for the authorization `index`, then fail.
    Abort { index: usize, failure: AcmeFailure },
    /// Generate a key pair and a signing request over all domains, and
    /// finalize the order with it.
    Finalize,
    /// Wait two seconds, then fetch the status of the order; `polls` polls
    /// were made before.
    PollOrder { polls: u32 },
    /// Download the certificate chain.
    Download,
    /// Write the chain and the key under the first domain.
    Save,
    /// The certificate is stored.
    Done,
    /// The issuance failed.
    Failed { failure: AcmeFailure },
}

/// What the caller reports of the action of a phase.
#[allow(inconsistent_fields)]
#[derive(Debug, Clone, Copy, PartialEq, Eq, Structural)]
pub enum Report {
    /// The action succeeded.
    Done,
    /// The order was created; it has this many authorizations.
    Authorizations { count: usize },
    /// The authorization offers no challenge of the type asked for.
    NoChallenge,
    /// The status of the authorization that was polled.
    Authorization { status: AuthorizationStatus },
    /// The status of the order that was polled.
    Order { status: OrderStatus },
    /// The server has no certificate for the order.
    NoCertificate,
    /// The action failed.
    Error,
}

/// The phase after the authorization `index` of `count` is dealt with.
pub open spec fn after_authorization(index: usize, count: usize) -> Phase {
    if index < count && index + 1 < count {
        Phase::Challenge { index: (index + 1) as usize }
    } else {
        Phase::Finalize
    }
}

/// The phase that follows `phase` on `report`, in an order with `count`
/// authorizations.
///
/// A report that does not belong to the phase counts as a failed exchange.
/// An authorization is polled until it is valid or invalid, an order until
/// it is valid or invalid, each 31 times at most.
pub open spec fn next_phase(phase: Phase, report: Report, count: usize) -> Phase {
    match phase {
        Phase::Account => match report {
            Report::Done => Phase::Order,
            _ => Phase::Failed { failure: AcmeFailure::Account },
        },
        Phase::Order => match report {
            Report::Authorizations { count: n } => if n > 0 {
                Phase::Challenge { index: 0 }
            } else {
                Phase::Finalize
            },
            _ => Phase::Failed { failure: AcmeFailure::Order },
        },
        Phase::Challenge { index } => match report {
            Report::Done => Phase::PollAuthorization { index, polls: 0 },
            Report::NoChallenge => Phase::Failed { failure: AcmeFailure::NoChallenge },
            _ => Phase::Failed { failure: AcmeFailure::Server },
        },
        Phase::PollAuthorization { index, polls } => match report {
            Report::Authorization { status: AuthorizationStatus::Valid } => Phase::Cleanup {
                index,
            },
            Report::Authorization { status: AuthorizationStatus::Invalid } => Phase::Abort {
                index,
                failure: AcmeFailure::AuthorizationInvalid,
            },
            Report::Authorization { status: _ } => if polls >= 30 {
                Phase::Abort { index, failure: AcmeFailure::AuthorizationTimeout }
            } else {
                Phase::PollAuthorization { index, polls: (polls + 1) as u32 }
            },
            _ => Phase::Failed { failure: AcmeFailure::Server },
        },
        Phase::Cleanup { index } => match report {
            Report::Done => after_authorization(index, count),
            _ => Phase::Failed { failure: AcmeFailure::Server },
        },
        Phase::Abort { index, failure } => Phase::Failed { failure },
        Phase::Finalize => match report {
            Report::Done => Phase::PollOrder { polls: 0 },
            _ => Phase::Failed { failure: AcmeFailure::Finalize },
        },
        Phase::PollOrder { polls } => match report {
            Report::Order { status: OrderStatus::Valid } => Phase::Download,
            Report::Order { status: OrderStatus::Invalid } => Phase::Failed {
                failure: AcmeFailure::OrderInvalid,
            },
            Report::Order { status: _ } => if polls >= 30 {
                Phase::Failed { failure: AcmeFailure::OrderTimeout }
            } else {
                Phase::PollOrder { polls: (polls + 1) as u32 }
            },
            _ => Phase::Failed { failure: AcmeFailure::Server },
        },
        Phase::Download => match report {
            Report::Done => Phase::Save,
            Report::NoCertificate => Phase::Failed { failure: AcmeFailure::NoCertificate },
            _ => Phase::Failed { failure: AcmeFailure::Server },
        },
        Phase::Save => match report {
            Report::Done => Phase::Done,
            _ => Phase::Failed { failure: AcmeFailure::Storage },
        },
        Phase::Done => Phase::Done,
        Phase::Failed { failure } => Phase::Failed { failure },
    }
}

/// How far a phase is from the end: the number of actions that can still
/// follow it, at most.
pub open spec fn distance(phase: Phase, count: usize) -> int {
    match phase {
        Phase::Account => 36 * count + 40,
        Phase::Order => 36 * count + 39,
        Phase::Challenge { index } => 36 * (count - index) + 38,
        Phase::PollAuthorization { index, polls } => 36 * (count - index) + 37 - polls,
        Phase::Cleanup { index } => 36 * (count - index) + 3,
        Phase::Abort { index, failure } => 1,
        Phase::Finalize => 36,
        Phase::PollOrder { polls } => 35 - polls,
        Phase::Download => 3,
        Phase::Save => 2,
        Phase::Done => 0,
        Phase::Failed { failure } => 0,
    }
}

/// Whether a phase can stand in an order with `count` authorizations.
pub open spec fn in_order(phase: Phase, count: usize) -> bool {
    match phase {
        Phase::Challenge { index } => index < count,
        Phase::PollAuthorization { index, polls } => index < count && polls <= 30,
        Phase::Cleanup { index } => index < count,
        Phase::PollOrder { polls } => polls <= 30,
        _ => true,
    }
}

/// An issuance ends: every action brings it nearer to its end, whatever is
/// reported, and it stays in the order.
pub proof fn lemma_issuance_ends(phase: Phase, report: Report, count: usize)
    requires
        in_order(phase, count),
        !(phase is Done),
        !(phase is Failed),
        (phase is Order && report is Authorizations) ==> report->count == count,
    ensures
        in_order(next_phase(phase, report, count), count),
        0 <= distance(next_phase(phase, report, count), count) < distance(phase, count),
{
}

/// A certificate is stored only after the order was valid: `Done` follows
/// `Save` alone, and `Save` follows `Download` alone.
pub proof fn lemma_done_after_save(phase: Phase, report: Report, count: usize)
    ensures
        next_phase(phase, report, count) is Done ==> phase is Save || phase is Done,
        next_phase(phase, report, count) is Save ==> phase is Download,
        next_phase(phase, report, count) is Download ==> phase is PollOrder && report
            == (Report::Order { status: OrderStatus::Valid }),
{
}

/// The phase in which an issuance for `domains` domains starts.
pub fn start(domains: usize) -> (r: Phase)
    ensures
        r == (if domains == 0 {
            Phase::Failed { failure: AcmeFailure::NoDomains }
        } else {
            Phase::Account
        }),
{
    if domains == 0 {
        Phase::Failed { failure: AcmeFailure::NoDomains }
    } else {
        Phase::Account
    }
}

/// The phase that follows `phase` on `report`, in an order with `count`
/// authorizations.
pub fn advance(phase: Phase, report: Report, count: usize) -> (r: Phase)
    ensures
        r == next_phase(phase, report, count),
{
    match phase {
        Phase::Account => match report {
            Report::Done => Phase::Order,
            _ => Phase::Failed { failure: AcmeFailure::Account },
        },
        Phase::Order => match report {
            Report::Authorizations { count: n } => if n > 0 {
                Phase::Challenge { index: 0 }
            } else {
                Phase::Finalize
            },
            _ => Phase::Failed { failure: AcmeFailure::Order },
        },
        Phase::Challenge { index } => match report {
            Report::Done => Phase::PollAuthorization { index, polls: 0 },
            Report::NoChallenge => Phase::Failed { failure: AcmeFailure::NoChallenge },
            _ => Phase::Failed { failure: AcmeFailure::Server },
        },
        Phase::PollAuthorization { index, polls } => match report {
            Report::Authorization { status } => poll_authorization(index, polls, status),
            _ => Phase::Failed { failure: AcmeFailure::Server },
        },
        Phase::Cleanup { index } => match report {
            Report::Done => if index < count && index + 1 < count {
                Phase::Challenge { index: index + 1 }
            } else {
                Phase::Finalize
            },
            _ => Phase::Failed { failure: AcmeFailure::Server },
        },
        Phase::Abort { index, failure } => Phase::Failed { failure },
        Phase::Finalize => match report {
            Report::Done => Phase::PollOrder { polls: 0 },
            _ => Phase::Failed { failure: AcmeFailure::Finalize },
        },
        Phase::PollOrder { polls } => match report {
            Report::Order { status } => poll_order(polls, status),
            _ => Phase::Failed { failure: AcmeFailure::Server },
        },
        Phase::Download => match report {
            Report::Done => Phase::Save,
            Report::NoCertificate => Phase::Failed { failure: AcmeFailure::NoCertificate },
            _ => Phase::Failed { failure: AcmeFailure::Server },
        },
        Phase::Save => match report {
            Report::Done => Phase::Done,
            _ => Phase::Failed { failure: AcmeFailure::Storage },
        },
        Phase::Done => Phase::Done,
        Phase::Failed { failure } => Phase::Failed { failure },
    }
}

/// What follows a poll of the authorization `index` after `polls` earlier
/// polls.
pub fn poll_authorization(index: usize, polls: u32, status: AuthorizationStatus) -> (r: Phase)
    ensures
        r == next_phase(
            Phase::PollAuthorization { index, polls },
            Report::Authorization { status },
            0,
        ),
{
    match status {
        AuthorizationStatus::Valid => Phase::Cleanup { index },
        AuthorizationStatus::Invalid => Phase::Abort {
            index,
            failure: AcmeFailure::AuthorizationInvalid,
        },
        _ => if polls >= MAX_POLLS {
            Phase::Abort { index, failure: AcmeFailure::AuthorizationTimeout }
        } else {
            Phase::PollAuthorization { index, polls: polls + 1 }
        },
    }
}

/// What follows a poll of the order after `polls` earlier polls.
pub fn poll_order(polls: u32, status: OrderStatus) -> (r: Phase)
    ensures
        r == next_phase(Phase::PollOrder { polls }, Report::Order { status }, 0),
{
    match status {
        OrderStatus::Valid => Phase::Download,
        OrderStatus::Invalid => Phase::Failed { failure: AcmeFailure::OrderInvalid },
        _ => if polls >= MAX_POLLS {
            Phase::Failed { failure: AcmeFailure::OrderTimeout }
        } else {
            Phase::PollOrder { polls: polls + 1 }
        },
    }
}

/// ACME client for Let's Encrypt certificate management.
#[derive(Debug, Clone)]
pub struct AcmeClient {
    config: AcmeConfig,
    storage: CertificateStorage,
}

/// The contact of an account: `mailto:` and the address.
pub open spec fn contact_text(email: Seq<char>) -> Seq<char> {
    "mailto:"@ + email
}

/// The path of the account credentials: `<account-dir>/account.json`.
pub open spec fn account_path_text(dir: Seq<char>) -> Seq<char> {
    dir + "/account.json"@
}

impl AcmeClient {
    pub closed spec fn settings(&self) -> AcmeConfig {
        self.config
    }

    pub closed spec fn store(&self) -> CertificateStorage {
        self.storage
    }

    /// Create a new ACME client, with a store over the certificate
    /// directory of the configuration.
    pub fn new(config: AcmeConfig) -> (r: Result<Self, CertError>)
        ensures
            r is Ok,
            r->Ok_0.settings() == config,
            r->Ok_0.store().dir() == config.cert_dir@,
    {
        match CertificateStorage::new(config.cert_dir.clone()) {
            Ok(storage) => Ok(AcmeClient { config, storage }),
            Err(e) => Err(e),
        }
    }

    /// Get certificate storage.
    pub fn storage(&self) -> (s: &CertificateStorage)
        ensures
            *s == self.store(),
    {
        &self.storage
    }

    /// The configuration of the client.
    pub fn config(&self) -> (c: &AcmeConfig)
        ensures
            *c == self.settings(),
    {
        &self.config
    }

    /// The URL of the ACME directory: staging or production.
    pub fn directory_url(&self) -> (s: &'static str)
        ensures
            s@ == (if self.settings().use_staging {
                STAGING_DIRECTORY@
            } else {
                PRODUCTION_DIRECTORY@
            }),
    {
        if self.config.use_staging {
            STAGING_DIRECTORY
        } else {
            PRODUCTION_DIRECTORY
        }
    }

    /// The contact with which an account is created.
    pub fn contact(&self) -> (s: String)
        ensures
            s@ == contact_text(self.settings().email@),
    {
        let mut out: Vec<char> = Vec::new();
        append_str(&mut out, "mailto:");
        append_str(&mut out, self.config.email.as_str());
        assert(out@ =~= contact_text(self.settings().email@));
        string_of(&out)
    }

    /// The path of the account credentials file.
    pub fn account_path(&self) -> (s: String)
        ensures
            s@ == account_path_text(self.settings().account_dir@),
    {
        let mut out: Vec<char> = Vec::new();
        append_str(&mut out, self.config.account_dir.as_str());
        append_str(&mut out, "/account.json");
        assert(out@ =~= account_path_text(self.settings().account_dir@));
        string_of(&out)
    }

    /// Check if a certificate needs renewal (within 30 days of expiry),
    /// from the days until it expires.
    pub fn check_renewal_needed(days_until_expiry: i64) -> (b: bool)
        ensures
            b == (days_until_expiry < 30),
    {
        renewal_due(days_until_expiry)
    }
}

/// The domains for which an issuance is under way. No domain is in it
/// twice, so that no two orders run for one domain at a time.
#[derive(Debug, Clone)]
pub struct IssuanceRegistry {
    active: Vec<String>,
}

pub open spec fn texts(v: Seq<String>) -> Seq<Seq<char>> {
    Seq::new(v.len(), |i: int| v[i]@)
}

impl IssuanceRegistry {
    /// The domains with an issuance under way.
    pub closed spec fn domains(&self) -> Seq<Seq<char>> {
        texts(self.active@)
    }

    /// No domain stands twice.
    pub open spec fn wf(&self) -> bool {
        self.domains().no_duplicates()
    }

    pub fn new() -> (r: Self)
        ensures
            r.wf(),
            r.domains() == Seq::<Seq<char>>::empty(),
    {
        let r = IssuanceRegistry { active: Vec::new() };
        assert(texts(r.active@) =~= Seq::empty());
        r
    }

    fn position(&self, domain: &str) -> (i: usize)
        ensures
            i <= self.active.len(),
            i < self.active.len() ==> self.domains()[i as int] == domain@,
            forall|j: int| 0 <= j < i ==> self.domains()[j] != domain@,
    {
        let mut i: usize = 0;
        while i < self.active.len()
            invariant
                i <= self.active.len(),
                forall|j: int| 0 <= j < i ==> self.domains()[j] != domain@,
            decreases self.active.len() - i,
        {
            if crate::text::str_eq(self.active[i].as_str(), domain) {
                return i;
            }
            i += 1;
        }
        i
    }

    /// Whether an issuance is under way for the domain.
    pub fn is_active(&self, domain: &str) -> (b: bool)
        ensures
            b == self.domains().contains(domain@),
    {
        let i = self.position(domain);
        i < self.active.len()
    }

    /// Starts an issuance for the domain, unless one is under way; tells
    /// whether it was started.
    pub fn begin(&mut self, domain: &str) -> (started: bool)
        requires
            old(self).wf(),
        ensures
            final(self).wf(),
            started == !old(self).domains().contains(domain@),
            final(self).domains() == (if started {
                old(self).domains().push(domain@)
            } else {
                old(self).domains()
            }),
    {
        let i = self.position(domain);
        if i < self.active.len() {
            return false;
        }
        let ghost before = self.domains();
        self.active.push(domain.to_owned());
        assert(self.domains() =~= before.push(domain@));
        true
    }

    /// Ends the issuance for the domain.
    pub fn finish(&mut self, domain: &str)
        requires
            old(self).wf(),
        ensures
            final(self).wf(),
            !final(self).domains().contains(domain@),
            forall|d: Seq<char>|
                d != domain@ ==> (final(self).domains().contains(d) <==> old(
                    self,
                ).domains().contains(d)),
    {
        let i = self.position(domain);
        if i < self.active.len() {
            let ghost before = self.domains();
            let _ = self.active.remove(i);
            assert(self.domains() =~= before.remove(i as int));
            assert forall|d: Seq<char>| d != domain@ implies (self.domains().contains(d)
                <==> before.contains(d)) by {
                if before.contains(d) {
                    let k = choose|k: int| 0 <= k < before.len() && before[k] == d;
                    if k < i {
                        assert(self.domains()[k] == d);
                    } else {
                        assert(self.domains()[k - 1] == d);
                    }
                }
                if self.domains().contains(d) {
                    let k = choose|k: int| 0 <= k < self.domains().len() && self.domains()[k] == d;
                    if k < i {
                        assert(before[k] == d);
                    } else {
                        assert(before[k + 1] == d);
                    }
                }
            }
            assert(!self.domains().contains(domain@)) by {
                if self.domains().contains(domain@) {
                    let k = choose|k: int|
                        0 <= k < self.domains().len() && self.domains()[k] == domain@;
                    if k < i {
                        assert(before[k] == domain@);
                    } else {
                        assert(before[k + 1] == domain@);
                        assert(before[i as int] == before[k + 1]);
                    }
                }
            }
            assert(self.domains().no_duplicates()) by {
                assert forall|a: int, b: int|
                    0 <= a < self.domains().len() && 0 <= b < self.domains().len() && a
                        != b implies self.domains()[a] != self.domains()[b] by {
                    let a0 = if a < i {
                        a
                    } else {
                        a + 1
                    };
                    let b0 = if b < i {
                        b
                    } else {
                        b + 1
                    };
                    assert(self.domains()[a] == before[a0] && self.domains()[b] == before[b0]);
                }
            }
        }
    }
}

impl Default for IssuanceRegistry {
    fn default() -> (r: Self)
        ensures
            r.wf(),
            r.domains() == Seq::<Seq<char>>::empty(),
    {
        IssuanceRegistry::new()
    }
}

} // verus!
