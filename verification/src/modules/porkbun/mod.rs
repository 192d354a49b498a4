//! Porkbun: configuration, credentials and the answers of its API.

pub mod domains;
pub mod pricing;

use vstd::prelude::*;
use vstd::string::*;
use crate::json::optional_text;
use crate::modules::porkbun::pricing::PorkbunPricingConfig;

verus! {

#[derive(Debug)]
pub struct PorkbunConfig {
    pub api_key: Option<String>,
    pub secret_key: Option<String>,
    pub pricing: Option<PorkbunPricingConfig>,
}

#[derive(Debug)]
pub struct PorkbunService {
    pub config: PorkbunConfig,
}

/// The body of a ping.
#[derive(Debug)]
pub struct PingRequest<'a> {
    pub apikey: &'a str,
    pub secretapikey: &'a str,
}

/// The answer to a ping.
#[allow(non_snake_case)]
#[derive(Debug)]
pub struct PingResponse {
    pub status: String,
    pub yourIp: Option<String>,
}

/// Why a call to Porkbun came to nothing.
#[derive(Debug)]
pub enum PorkbunError {
    /// The configuration holds no API key.
    MissingApiKey,
    /// The configuration holds no secret key.
    MissingSecretKey,
    /// The ping was answered with an HTTP failure; the text is the body.
    PingFailed(String),
    /// The ping was answered with a status other than `SUCCESS`.
    PingError(String),
    /// The listing was answered with an HTTP failure; the text is the body.
    ListFailed(String),
    /// The listing was answered with a status other than `SUCCESS`.
    ListError(String),
    /// The answer to the listing is no object with a status and domains
    /// that bear a name each.
    ListMalformed,
}

/// The message of an error.
pub open spec fn error_text(error: PorkbunError) -> Seq<char> {
    match error {
        PorkbunError::MissingApiKey => "Missing api_key"@,
        PorkbunError::MissingSecretKey => "Missing secret_key"@,
        PorkbunError::PingFailed(body) => "Ping failed: "@ + body@,
        PorkbunError::PingError(status) => "Ping error: "@ + status@,
        PorkbunError::ListFailed(body) => "Domain listAll failed: "@ + body@,
        PorkbunError::ListError(status) => "Domain listAll error: "@ + status@,
        PorkbunError::ListMalformed => "Domain listAll answer is malformed"@,
    }
}

impl PorkbunError {
    /// The message of the error.
    pub fn message(&self) -> (r: String)
        ensures
            r@ == error_text(*self),
    {
        match self {
            PorkbunError::MissingApiKey => "Missing api_key".to_owned(),
            PorkbunError::MissingSecretKey => "Missing secret_key".to_owned(),
            PorkbunError::PingFailed(body) => "Ping failed: ".to_owned().concat(body.as_str()),
            PorkbunError::PingError(status) => "Ping error: ".to_owned().concat(status.as_str()),
            PorkbunError::ListFailed(body) => "Domain listAll failed: ".to_owned().concat(
                body.as_str(),
            ),
            PorkbunError::ListError(status) => "Domain listAll error: ".to_owned().concat(
                status.as_str(),
            ),
            PorkbunError::ListMalformed => "Domain listAll answer is malformed".to_owned(),
        }
    }
}

impl PorkbunConfig {
    /// Whether the prices of the top-level domains are to be ingested.
    pub fn pricing_enabled(&self) -> (r: bool)
        ensures
            r == (self.pricing matches Some(p) && p.enabled),
    {
        match &self.pricing {
            Some(p) => p.enabled,
            None => false,
        }
    }
}

impl PorkbunService {
    pub fn new(config: PorkbunConfig) -> (r: Self)
        ensures
            r.config == config,
    {
        Self { config }
    }

    /// The two keys as the body of a request, where the configuration holds
    /// both. The API key is looked for first.
    pub fn credentials(&self) -> (r: Result<PingRequest<'_>, PorkbunError>)
        ensures
            match r {
                Ok(keys) => optional_text(self.config.api_key) == Some(keys.apikey@)
                    && optional_text(self.config.secret_key) == Some(keys.secretapikey@),
                Err(e) => if self.config.api_key is None {
                    e == PorkbunError::MissingApiKey
                } else {
                    self.config.secret_key is None && e == PorkbunError::MissingSecretKey
                },
            },
    {
        match &self.config.api_key {
            None => Err(PorkbunError::MissingApiKey),
            Some(api_key) => match &self.config.secret_key {
                None => Err(PorkbunError::MissingSecretKey),
                Some(secret_key) => Ok(
                    PingRequest { apikey: api_key.as_str(), secretapikey: secret_key.as_str() },
                ),
            },
        }
    }
}

impl PingResponse {
    /// What a ping comes to: the caller's address, empty where the answer
    /// names none, when the status is `SUCCESS`, and else the status as an
    /// error.
    pub fn outcome(self) -> (r: Result<String, PorkbunError>)
        ensures
            match r {
                Ok(ip) => self.status@ == "SUCCESS"@ && ip@ == match self.yourIp {
                    Some(text) => text@,
                    None => Seq::<char>::empty(),
                },
                Err(e) => self.status@ != "SUCCESS"@ && e == PorkbunError::PingError(self.status),
            },
    {
        if !self.status.as_str().eq("SUCCESS") {
            return Err(PorkbunError::PingError(self.status));
        }
        match self.yourIp {
            Some(text) => Ok(text),
            None => Ok(String::new()),
        }
    }
}

} // verus!
