//! ACME (Automated Certificate Management Environment): the decisions of
//! the certificate lifecycle. The exchanges with the server and the files
//! are the caller's part.

pub mod client;
pub mod save;
pub mod storage;
pub mod validation;

pub use client::{AcmeClient, AcmeConfig};
pub use storage::{CertificateInfo, CertificateStorage};
pub use validation::{ChallengeType, ValidationResult};

use vstd::prelude::*;
use vstd::string::*;
use crate::acme::storage::{state_of, texts, CertificateState};

verus! {

/// Certificate status information.
#[derive(Debug, Clone)]
pub struct CertificateStatus {
    /// Whether a valid certificate exists
    pub exists: bool,
    /// Domain names in the certificate
    pub domains: Vec<String>,
    /// Certificate expiry date
    pub expires_at: Option<String>,
    /// Days until expiry
    pub days_until_expiry: Option<i64>,
    /// Whether renewal is recommended
    pub needs_renewal: bool,
}

impl Default for CertificateStatus {
    fn default() -> (r: Self)
        ensures
            !r.exists,
            r.domains@.len() == 0,
            r.expires_at is None,
            r.days_until_expiry is None,
            !r.needs_renewal,
    {
        CertificateStatus {
            exists: false,
            domains: Vec::new(),
            expires_at: None,
            days_until_expiry: None,
            needs_renewal: false,
        }
    }
}

impl CertificateStatus {
    /// The status of a stored certificate: renewal is recommended when
    /// fewer than 30 days remain.
    pub fn of(info: &CertificateInfo) -> (r: Self)
        ensures
            r.exists,
            texts(r.domains@) == texts(info.domains@),
            r.expires_at is Some && r.expires_at->0@ == info.expires_at@,
            r.days_until_expiry == Some(info.days_until_expiry),
            r.needs_renewal == (info.days_until_expiry < 30),
    {
        let mut domains: Vec<String> = Vec::new();
        let mut i: usize = 0;
        while i < info.domains.len()
            invariant
                i <= info.domains.len(),
                domains@.len() == i,
                forall|j: int| 0 <= j < i ==> (#[trigger] domains@[j])@ == info.domains@[j]@,
            decreases info.domains.len() - i,
        {
            domains.push(info.domains[i].clone());
            i += 1;
        }
        assert(texts(domains@) =~= texts(info.domains@));
        CertificateStatus {
            exists: true,
            domains,
            expires_at: Some(info.expires_at.clone()),
            days_until_expiry: Some(info.days_until_expiry),
            needs_renewal: storage::renewal_due(info.days_until_expiry),
        }
    }

    /// How the certificate stands to its expiry; none where there is no
    /// certificate.
    pub fn state(&self) -> (r: Option<CertificateState>)
        ensures
            r == (match self.days_until_expiry {
                Some(d) => Some(state_of(d)),
                None => None,
            }),
    {
        match self.days_until_expiry {
            Some(d) => Some(CertificateState::of(d)),
            None => None,
        }
    }
}

/// Request parameters for a new certificate.
#[derive(Debug, Clone)]
pub struct CertificateRequest {
    /// Domain names to include in the certificate
    pub domains: Vec<String>,
    /// Email for Let's Encrypt notifications
    pub email: String,
    /// Challenge type to use
    pub challenge_type: ChallengeType,
    /// Whether to use Let's Encrypt staging environment
    pub use_staging: bool,
}

/// Result of a certificate operation.
#[derive(Debug, Clone)]
pub struct CertificateOperationResult {
    /// Whether the operation succeeded
    pub success: bool,
    /// Result message
    pub message: String,
    /// Certificate info if successful
    pub certificate: Option<CertificateInfo>,
}

} // verus!
