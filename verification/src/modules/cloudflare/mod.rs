//! Cloudflare: configuration and credentials.

pub mod domains;
pub mod domains_endpoint;

use vstd::prelude::*;
use crate::json::optional_text;

verus! {

#[derive(Debug)]
pub struct CloudflareConfig {
    pub api_key: Option<String>,
    pub global_api_key: Option<String>,
    pub email: Option<String>,
}

/// How a request to Cloudflare is signed: with the global key of an account
/// and its e-mail address, or with a token.
#[derive(Debug)]
pub enum Credentials {
    UserAuthKey { key: String, email: String },
    UserAuthToken { token: String },
}

/// What credentials stand for.
pub ghost enum CredentialsView {
    UserAuthKey { key: Seq<char>, email: Seq<char> },
    UserAuthToken { token: Seq<char> },
}

impl View for Credentials {
    type V = CredentialsView;

    open spec fn view(&self) -> CredentialsView {
        match self {
            Credentials::UserAuthKey { key, email } => CredentialsView::UserAuthKey {
                key: key@,
                email: email@,
            },
            Credentials::UserAuthToken { token } => CredentialsView::UserAuthToken {
                token: token@,
            },
        }
    }
}

#[derive(Debug)]
pub struct CloudflareService {
    pub config: CloudflareConfig,
    pub credentials: Credentials,
}

/// The credentials that a configuration gives: the global key with the
/// e-mail address where there is a global key, else the token of the API
/// key. There are none where the global key comes without an address, and
/// where there is no key at all.
pub open spec fn credentials_of(config: CloudflareConfig) -> Option<CredentialsView> {
    match optional_text(config.global_api_key) {
        Some(key) => match optional_text(config.email) {
            Some(email) => Some(CredentialsView::UserAuthKey { key, email }),
            None => None,
        },
        None => match optional_text(config.api_key) {
            Some(token) => Some(CredentialsView::UserAuthToken { token }),
            None => None,
        },
    }
}

impl CloudflareConfig {
    /// The credentials that the configuration gives, if it gives any.
    pub fn credentials(&self) -> (r: Option<Credentials>)
        ensures
            match r {
                Some(c) => credentials_of(*self) == Some(c@),
                None => credentials_of(*self) is None,
            },
    {
        match &self.global_api_key {
            Some(key) => match &self.email {
                Some(email) => Some(
                    Credentials::UserAuthKey { key: key.clone(), email: email.clone() },
                ),
                None => None,
            },
            None => match &self.api_key {
                Some(token) => Some(Credentials::UserAuthToken { token: token.clone() }),
                None => None,
            },
        }
    }
}

impl CloudflareService {
    /// The service for a configuration that gives credentials.
    pub fn new(config: CloudflareConfig) -> (r: Self)
        requires
            credentials_of(config) is Some,
        ensures
            r.config == config,
            Some(r.credentials@) == credentials_of(config),
    {
        let found = config.credentials();
        Self { config, credentials: found.unwrap() }
    }
}

} // verus!
