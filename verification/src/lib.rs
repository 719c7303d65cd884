//! SIP back-to-back user agent and session border controller core.

pub mod acl;
pub mod acme;
pub mod auth;
pub mod b2bua;
pub mod clock;
pub mod config;
pub mod console;
pub mod health;
pub mod ip;
pub mod media;
pub mod numeral;
pub mod order;
pub mod ratings;
pub mod routing;
pub mod sip;
pub mod teams;
pub mod text;
pub mod voicemail;
