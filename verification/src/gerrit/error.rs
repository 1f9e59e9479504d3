//! Failures reaching or decoding Gerrit. Every message carries the offending
//! value.

use vstd::prelude::*;
use crate::text::{push_str, push_decimal, spec_decimal};

verus! {

/// Failures reaching or decoding Gerrit.
#[derive(Debug, Clone, PartialEq, Eq)]
pub enum GerritError {
    /// The body carried no XSSI guard, so it is not the JSON API. Almost always
    /// an HTML login or SSO page returned because authentication failed.
    NotJsonApi { preview: String },
    /// The guard was present but what followed was not the expected JSON.
    MalformedJson { preview: String, message: String },
    /// The change does not exist, or the user cannot see it.
    NoSuchChange { change_id: String },
    /// No REST base URL could be derived and none was configured.
    UndeterminedBaseUrl { remote: String, url: String },
    /// Certificate validation failed — a trust-store difference, not an auth
    /// failure.
    TlsTrust { host: String, configured: String },
    /// Gerrit answered, but not with success.
    HttpStatus { status: u16, url: String, body: String },
    /// The request never completed.
    Transport { url: String, message: String },
}

/// The message describing an error.
pub open spec fn spec_describe(e: GerritError) -> Seq<char> {
    match e {
        GerritError::NotJsonApi { preview } => "response is not Gerrit's JSON API (no `)]}'` guard) — authentication may have failed and returned a login page. Body began: "@ + preview@,
        GerritError::MalformedJson { preview, message } => "could not parse Gerrit JSON: "@ + message@ + ". Body began: "@ + preview@,
        GerritError::NoSuchChange { change_id } => "change `"@ + change_id@ + "` was not found, or you do not have access to it"@,
        GerritError::UndeterminedBaseUrl { remote, url } => "could not derive Gerrit's URL from remote `"@ + remote@ + "` = `"@ + url@ + "`. Configure the base URL explicitly."@,
        GerritError::TlsTrust { host, configured } => "TLS certificate validation failed for `"@ + host@ + "`. Remendo trusts the system root store; if `git push` works against this host, its CA is probably configured in git — check `git config --get http.sslCAInfo`"@ + configured@,
        GerritError::HttpStatus { status, url, body } => "Gerrit returned "@ + spec_decimal(status as nat) + " for "@ + url@ + body@,
        GerritError::Transport { url, message } => "could not reach Gerrit at "@ + url@ + ": "@ + message@,
    }
}

/// The configured-CA suffix of a TLS trust message.
pub open spec fn spec_configured(ca_info: Option<Seq<char>>) -> Seq<char> {
    match ca_info {
        Some(path) => " (currently `"@ + path + "`)"@,
        None => " (currently unset)"@,
    }
}

impl GerritError {
    /// Build a [`GerritError::TlsTrust`], folding in git's configured CA path
    /// when there is one so the message names the file that is already in play.
    pub fn tls_trust(host: &str, ca_info: Option<&str>) -> (r: GerritError)
        ensures
            r matches GerritError::TlsTrust { host: h, configured } && h@ == host@ && configured@
                == spec_configured(match ca_info { Some(p) => Some(p@), None => None }),
    {
        let mut configured = String::new();
        match ca_info {
            Some(path) => {
                push_str(&mut configured, " (currently `");
                push_str(&mut configured, path);
                push_str(&mut configured, "`)");
            },
            None => {
                push_str(&mut configured, " (currently unset)");
            },
        }
        GerritError::TlsTrust { host: host.to_owned(), configured }
    }

    /// The human-readable message for this error.
    pub fn describe(&self) -> (r: String)
        ensures
            r@ == spec_describe(*self),
    {
        let mut s = String::new();
        match self {
            GerritError::NotJsonApi { preview } => {
                push_str(&mut s, "response is not Gerrit's JSON API (no `)]}'` guard) — authentication may have failed and returned a login page. Body began: ");
                push_str(&mut s, preview.as_str());
            },
            GerritError::MalformedJson { preview, message } => {
                push_str(&mut s, "could not parse Gerrit JSON: ");
                push_str(&mut s, message.as_str());
                push_str(&mut s, ". Body began: ");
                push_str(&mut s, preview.as_str());
            },
            GerritError::NoSuchChange { change_id } => {
                push_str(&mut s, "change `");
                push_str(&mut s, change_id.as_str());
                push_str(&mut s, "` was not found, or you do not have access to it");
            },
            GerritError::UndeterminedBaseUrl { remote, url } => {
                push_str(&mut s, "could not derive Gerrit's URL from remote `");
                push_str(&mut s, remote.as_str());
                push_str(&mut s, "` = `");
                push_str(&mut s, url.as_str());
                push_str(&mut s, "`. Configure the base URL explicitly.");
            },
            GerritError::TlsTrust { host, configured } => {
                push_str(&mut s, "TLS certificate validation failed for `");
                push_str(&mut s, host.as_str());
                push_str(&mut s, "`. Remendo trusts the system root store; if `git push` works against this host, its CA is probably configured in git — check `git config --get http.sslCAInfo`");
                push_str(&mut s, configured.as_str());
            },
            GerritError::HttpStatus { status, url, body } => {
                push_str(&mut s, "Gerrit returned ");
                push_decimal(&mut s, *status as u64);
                push_str(&mut s, " for ");
                push_str(&mut s, url.as_str());
                push_str(&mut s, body.as_str());
            },
            GerritError::Transport { url, message } => {
                push_str(&mut s, "could not reach Gerrit at ");
                push_str(&mut s, url.as_str());
                push_str(&mut s, ": ");
                push_str(&mut s, message.as_str());
            },
        }
        s
    }
}

} // verus!
