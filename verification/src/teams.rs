//! Microsoft Teams Direct Routing: the settings of the gateway, and the
//! OPTIONS request by which it shows a proxy that it is there.

use vstd::prelude::*;
use vstd::string::*;
use crate::b2bua::call_leg::{fresh_leg, CallLeg, LegView};
use crate::b2bua::dialog::{compose, leg_request};
use crate::ip::{IpAddress, SocketAddress};
use crate::numeral::{decimal, push_decimal};
use crate::sip::message::{Request, RequestView};
use crate::sip::method::Method;
use crate::sip::uri::{Uri, UriView};
use crate::text::{append_str, chars_of, string_of};

verus! {

#[derive(Debug, Clone)]
pub struct TeamsConfig {
    pub sbc_fqdn: String,
    pub tenant_domain: String,
    pub mtls_cert_path: String,
    pub mtls_key_path: String,
    pub sip_proxies: Vec<String>,
    pub options_ping_enabled: bool,
    pub options_ping_interval: u64,
}

/// Why the settings cannot be used.
#[derive(Debug, Clone, Copy, PartialEq, Eq, Structural)]
pub enum TeamsError {
    MissingSbcFqdn,
    MissingTenantDomain,
}

impl TeamsError {
    /// A description of the error.
    pub fn message(&self) -> (s: String)
        ensures
            s@ == (match self {
                TeamsError::MissingSbcFqdn => "SBC FQDN is required"@,
                TeamsError::MissingTenantDomain => "Tenant domain is required"@,
            }),
    {
        match self {
            TeamsError::MissingSbcFqdn => "SBC FQDN is required".to_owned(),
            TeamsError::MissingTenantDomain => "Tenant domain is required".to_owned(),
        }
    }
}

impl Default for TeamsConfig {
    fn default() -> (r: Self)
        ensures
            r.sbc_fqdn@ == "sbc.example.com"@,
            r.tenant_domain@ == "tenant.onmicrosoft.com"@,
            r.mtls_cert_path@ == "/etc/rustalk/teams-cert.pem"@,
            r.mtls_key_path@ == "/etc/rustalk/teams-key.pem"@,
            r.sip_proxies@.len() == 3,
            r.sip_proxies@[0]@ == "sip.pstnhub.microsoft.com"@,
            r.sip_proxies@[1]@ == "sip2.pstnhub.microsoft.com"@,
            r.sip_proxies@[2]@ == "sip3.pstnhub.microsoft.com"@,
            r.options_ping_enabled,
            r.options_ping_interval == 60,
    {
        let mut proxies: Vec<String> = Vec::new();
        proxies.push("sip.pstnhub.microsoft.com".to_owned());
        proxies.push("sip2.pstnhub.microsoft.com".to_owned());
        proxies.push("sip3.pstnhub.microsoft.com".to_owned());
        TeamsConfig {
            sbc_fqdn: "sbc.example.com".to_owned(),
            tenant_domain: "tenant.onmicrosoft.com".to_owned(),
            mtls_cert_path: "/etc/rustalk/teams-cert.pem".to_owned(),
            mtls_key_path: "/etc/rustalk/teams-key.pem".to_owned(),
            sip_proxies: proxies,
            options_ping_enabled: true,
            options_ping_interval: 60,
        }
    }
}

impl TeamsConfig {
    /// Checks that the SBC name and the tenant domain are given.
    pub fn validate(&self) -> (r: Result<(), TeamsError>)
        ensures
            r == (if self.sbc_fqdn@.len() == 0 {
                Err::<(), TeamsError>(TeamsError::MissingSbcFqdn)
            } else if self.tenant_domain@.len() == 0 {
                Err::<(), TeamsError>(TeamsError::MissingTenantDomain)
            } else {
                Ok::<(), TeamsError>(())
            }),
    {
        if self.sbc_fqdn.as_str().is_empty() {
            return Err(TeamsError::MissingSbcFqdn);
        }
        if self.tenant_domain.as_str().is_empty() {
            return Err(TeamsError::MissingTenantDomain);
        }
        Ok(())
    }
}

/// The dialog in which the gateway pings `proxy` for the `sequence`-th
/// time: from the SBC to the proxy, with the sequence number as the tag.
pub open spec fn ping_leg(sbc: Seq<char>, proxy: Seq<char>, sequence: u32) -> LegView {
    LegView {
        local_tag: decimal(sequence as nat),
        ..fresh_leg(
            SocketAddress { ip: IpAddress::V4(0), port: 0 },
            "<sip:"@ + sbc + seq!['>'],
            "<sip:"@ + proxy + seq!['>'],
        )
    }
}

/// The `sequence`-th OPTIONS request of the SBC to `proxy`: over TLS, in a
/// transaction and under a Call-ID of its own, with every header that a
/// request must have.
pub open spec fn ping(sbc: Seq<char>, proxy: Seq<char>, sequence: u32) -> RequestView {
    leg_request(
        ping_leg(sbc, proxy, sequence),
        "OPTIONS"@,
        UriView { scheme: "sip"@, user: None, host: proxy, port: None, params: Seq::empty() },
        "SIP/2.0/TLS "@ + sbc + ";branch=z9hG4bK"@ + decimal(sequence as nat),
        "ping-"@ + decimal(sequence as nat) + seq!['@'] + sbc,
        sequence,
        70,
        None,
        Seq::empty(),
    )
}

impl TeamsConfig {
    /// Builds the `sequence`-th OPTIONS request to `proxy`.
    pub fn options_ping(&self, proxy: &str, sequence: u32) -> (r: Request)
        ensures
            r@ == ping(self.sbc_fqdn@, proxy@, sequence),
    {
        let mut number: Vec<char> = Vec::new();
        push_decimal(&mut number, sequence as u64);
        assert(number@ =~= decimal(sequence as nat));
        let mut from = chars_of("<sip:");
        append_str(&mut from, self.sbc_fqdn.as_str());
        from.push('>');
        assert(from@ =~= "<sip:"@ + self.sbc_fqdn@ + seq!['>']);
        let mut to = chars_of("<sip:");
        append_str(&mut to, proxy);
        to.push('>');
        assert(to@ =~= "<sip:"@ + proxy@ + seq!['>']);
        let mut via = chars_of("SIP/2.0/TLS ");
        append_str(&mut via, self.sbc_fqdn.as_str());
        append_str(&mut via, ";branch=z9hG4bK");
        append_str(&mut via, string_of(&number).as_str());
        assert(via@ =~= "SIP/2.0/TLS "@ + self.sbc_fqdn@ + ";branch=z9hG4bK"@ + decimal(
            sequence as nat,
        ));
        let mut call_id = chars_of("ping-");
        append_str(&mut call_id, string_of(&number).as_str());
        call_id.push('@');
        append_str(&mut call_id, self.sbc_fqdn.as_str());
        assert(call_id@ =~= "ping-"@ + decimal(sequence as nat) + seq!['@'] + self.sbc_fqdn@);
        let leg = CallLeg::new(
            SocketAddress { ip: IpAddress::V4(0), port: 0 },
            string_of(&from),
            string_of(&to),
        ).with_local_tag(string_of(&number));
        let uri = Uri::new("sip".to_owned(), proxy.to_owned());
        assert(uri@.params =~= Seq::empty());
        compose(
            &leg,
            Method::Options,
            uri,
            string_of(&via).as_str(),
            string_of(&call_id).as_str(),
            sequence,
            70,
            None,
            Vec::new(),
        )
    }
}

} // verus!
