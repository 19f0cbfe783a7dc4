//! Exact-origin request checks and stateless, credential-bound CSRF tokens.
//!
//! Sibling hosts are same-site, so `SameSite=Strict` is not a complete boundary
//! for the admin app: cookie-authenticated mutations and the WebSocket handshake
//! require the configured admin Host and Origin.

use axum::http::HeaderMap;
use base64::engine::general_purpose::URL_SAFE_NO_PAD;
use base64::Engine;
use hmac::{Hmac, Mac};
use sha2::Sha256;
use vstd::prelude::*;
use vstd::utf8::encode_utf8;

use crate::fingerprint::append_bytes;
use crate::headers::{header_texts, texts};
use crate::text::{
    ascii_lowered, decimal, decimal_text, eq_ignore_ascii_case, lemma_utf8_injective, same_text, starts_with,
    trim, trimmed,
};

verus! {

/// The shortest CSRF signing key, in bytes.
pub const MIN_CSRF_SECRET_BYTES: usize = 32;

/// Why a request was turned away.
#[derive(Clone, Copy, Debug, Eq, PartialEq, Structural)]
pub enum RequestSecurityError {
    AmbiguousHost,
    AmbiguousOrigin,
    InvalidCsrfToken,
    MissingHost,
    MissingOrigin,
    MismatchedHost,
    MismatchedOrigin,
    CrossSiteFetch,
}

impl RequestSecurityError {
    /// The machine-readable reason.
    pub open spec fn reason(self) -> Seq<char> {
        match self {
            RequestSecurityError::AmbiguousHost => "ambiguous_host"@,
            RequestSecurityError::AmbiguousOrigin => "ambiguous_origin"@,
            RequestSecurityError::InvalidCsrfToken => "invalid_csrf_token"@,
            RequestSecurityError::MissingHost => "missing_host"@,
            RequestSecurityError::MissingOrigin => "missing_origin"@,
            RequestSecurityError::MismatchedHost => "mismatched_host"@,
            RequestSecurityError::MismatchedOrigin => "mismatched_origin"@,
            RequestSecurityError::CrossSiteFetch => "cross_site_fetch"@,
        }
    }

    /// The machine-readable reason.
    pub fn code(self) -> (code: &'static str)
        ensures
            code@ == self.reason(),
    {
        match self {
            RequestSecurityError::AmbiguousHost => "ambiguous_host",
            RequestSecurityError::AmbiguousOrigin => "ambiguous_origin",
            RequestSecurityError::InvalidCsrfToken => "invalid_csrf_token",
            RequestSecurityError::MissingHost => "missing_host",
            RequestSecurityError::MissingOrigin => "missing_origin",
            RequestSecurityError::MismatchedHost => "mismatched_host",
            RequestSecurityError::MismatchedOrigin => "mismatched_origin",
            RequestSecurityError::CrossSiteFetch => "cross_site_fetch",
        }
    }
}

/// Why the configured origin and key were refused.
#[derive(Clone, Copy, Debug, Eq, PartialEq, Structural)]
pub enum SecurityConfigError {
    OriginUnset,
    SecretUnset,
    SecretTooShort,
    OriginNotAbsolute,
    OriginNotBare,
    OriginNotHttps,
}

impl SecurityConfigError {
    /// What to tell the operator.
    pub open spec fn explanation(self) -> Seq<char> {
        match self {
            SecurityConfigError::OriginUnset => "FIDUCIA_ADMIN_ORIGIN must be set"@,
            SecurityConfigError::SecretUnset => "FIDUCIA_ADMIN_CSRF_SECRET must be set"@,
            SecurityConfigError::SecretTooShort => "FIDUCIA_ADMIN_CSRF_SECRET must contain at least 32 bytes"@,
            SecurityConfigError::OriginNotAbsolute => "FIDUCIA_ADMIN_ORIGIN must be an absolute URL"@,
            SecurityConfigError::OriginNotBare =>
                "FIDUCIA_ADMIN_ORIGIN must contain only http(s) scheme and authority"@,
            SecurityConfigError::OriginNotHttps => "FIDUCIA_ADMIN_ORIGIN must use https in release builds"@,
        }
    }

    /// What to tell the operator.
    pub fn message(self) -> (text: &'static str)
        ensures
            text@ == self.explanation(),
    {
        match self {
            SecurityConfigError::OriginUnset => "FIDUCIA_ADMIN_ORIGIN must be set",
            SecurityConfigError::SecretUnset => "FIDUCIA_ADMIN_CSRF_SECRET must be set",
            SecurityConfigError::SecretTooShort => "FIDUCIA_ADMIN_CSRF_SECRET must contain at least 32 bytes",
            SecurityConfigError::OriginNotAbsolute => "FIDUCIA_ADMIN_ORIGIN must be an absolute URL",
            SecurityConfigError::OriginNotBare =>
                "FIDUCIA_ADMIN_ORIGIN must contain only http(s) scheme and authority",
            SecurityConfigError::OriginNotHttps => "FIDUCIA_ADMIN_ORIGIN must use https in release builds",
        }
    }
}

/// The parts of an absolute URL.
pub struct UrlParts {
    pub scheme: String,
    pub host: Option<String>,
    pub username: String,
    pub password: Option<String>,
    pub query: Option<String>,
    pub fragment: Option<String>,
    pub path: String,
    /// The port, when it is not the scheme's own.
    pub port: Option<u16>,
}

/// The parts of an absolute URL, as texts.
pub struct UrlView {
    pub scheme: Seq<char>,
    pub host: Option<Seq<char>>,
    pub username: Seq<char>,
    pub password: Option<Seq<char>>,
    pub query: Option<Seq<char>>,
    pub fragment: Option<Seq<char>>,
    pub path: Seq<char>,
    pub port: Option<u16>,
}

impl View for UrlParts {
    type V = UrlView;

    open spec fn view(&self) -> UrlView {
        UrlView {
            scheme: self.scheme@,
            host: self.host.deep_view(),
            username: self.username@,
            password: self.password.deep_view(),
            query: self.query.deep_view(),
            fragment: self.fragment.deep_view(),
            path: self.path@,
            port: self.port,
        }
    }
}

/// The parts of the absolute URL that a text spells, by the WHATWG URL rules.
pub uninterp spec fn url_parts(text: Seq<char>) -> Option<UrlView>;

/// `reqwest::Url::parse` and the accessors of the URL it gives: the URL's parts,
/// which depend on the text alone, or nothing where it reports an error.
#[verifier::external_body]
pub(crate) fn parse_url(text: &str) -> (parts: Option<UrlParts>)
    ensures
        parts is Some <==> url_parts(text@) is Some,
        parts matches Some(parts) ==> url_parts(text@) == Some(parts@),
{
    reqwest::Url::parse(text).ok().map(|url| UrlParts {
        scheme: url.scheme().to_owned(),
        host: url.host_str().map(str::to_owned),
        username: url.username().to_owned(),
        password: url.password().map(str::to_owned),
        query: url.query().map(str::to_owned),
        fragment: url.fragment().map(str::to_owned),
        path: url.path().to_owned(),
        port: url.port(),
    })
}

/// Whether a URL's scheme is http or https.
pub open spec fn web_scheme(url: UrlView) -> bool {
    url.scheme == "http"@ || url.scheme == "https"@
}

/// The serialized origin of the URL that a text spells.
pub uninterp spec fn url_origin(text: Seq<char>) -> Seq<char>;

/// `reqwest::Url::parse`, then `origin` and `ascii_serialization`: the URL's
/// origin, which depends on the text alone. It is asked of http(s) URLs only: the
/// origin of some others is that of a URL in their path, and so on without end.
#[verifier::external_body]
fn origin_of(text: &str) -> (origin: String)
    requires
        url_parts(text@) is Some,
        web_scheme(url_parts(text@)->0),
    ensures
        origin@ == url_origin(text@),
{
    reqwest::Url::parse(text).expect("the text is a URL").origin().ascii_serialization()
}

/// HMAC-SHA-256 of a message under a key.
pub uninterp spec fn hmac_sha256(key: Seq<u8>, message: Seq<u8>) -> Seq<u8>;

/// `hmac`'s `Hmac<Sha256>` on one message: a tag of 32 bytes that depends on the
/// key and the message alone. Keys of every length are accepted.
#[verifier::external_body]
fn hmac_tag(key: &[u8], message: &[u8]) -> (tag: Vec<u8>)
    ensures
        tag@ == hmac_sha256(key@, message@),
        tag@.len() == 32,
{
    let mut mac = <Hmac<Sha256> as Mac>::new_from_slice(key).expect("HMAC accepts keys of every size");
    mac.update(message);
    mac.finalize().into_bytes().to_vec()
}

/// `hmac`'s `verify_slice`, which compares in constant time: whether a byte
/// string is the message's tag, all of it.
#[verifier::external_body]
fn hmac_verify(key: &[u8], message: &[u8], tag: &[u8]) -> (valid: bool)
    ensures
        valid == (tag@ == hmac_sha256(key@, message@)),
{
    let mut mac = <Hmac<Sha256> as Mac>::new_from_slice(key).expect("HMAC accepts keys of every size");
    mac.update(message);
    mac.verify_slice(tag).is_ok()
}

/// The unpadded URL-safe base64 text of a byte string.
pub uninterp spec fn base64_text(bytes: Seq<u8>) -> Seq<char>;

/// `base64`'s unpadded URL-safe encoder: a text that depends on the bytes alone,
/// and that no other bytes have. Its length must fit in memory.
#[verifier::external_body]
fn base64_encode(bytes: &[u8]) -> (text: String)
    requires
        bytes@.len() <= usize::MAX / 2,
    ensures
        text@ == base64_text(bytes@),
        forall|other: Seq<u8>| #[trigger] base64_text(other) == text@ ==> other == bytes@,
{
    URL_SAFE_NO_PAD.encode(bytes)
}

/// `base64`'s unpadded URL-safe decoder: the bytes whose encoding the text is, or
/// nothing where it reports an error. It refuses every text that the encoder does
/// not write: one with padding, with a symbol of another alphabet, of an
/// impossible length, or with loose bits behind the last byte.
#[verifier::external_body]
fn base64_decode(text: &str) -> (bytes: Option<Vec<u8>>)
    ensures
        forall|other: Seq<u8>| #[trigger] base64_text(other) == text@ <==> bytes.deep_view() == Some(other),
{
    URL_SAFE_NO_PAD.decode(text).ok()
}

/// What a CSRF token signs.
pub open spec fn csrf_message(credential_binding: Seq<char>) -> Seq<u8> {
    encode_utf8("fiducia-admin-csrf-v1\0"@) + encode_utf8(credential_binding)
}

/// The bytes a CSRF token signs.
fn csrf_message_bytes(credential_binding: &str) -> (bytes: Vec<u8>)
    ensures
        bytes@ == csrf_message(credential_binding@),
{
    let mut bytes: Vec<u8> = Vec::new();
    append_bytes(&mut bytes, "fiducia-admin-csrf-v1\0".as_bytes());
    append_bytes(&mut bytes, credential_binding.as_bytes());
    assert(bytes@ =~= csrf_message(credential_binding@));
    bytes
}

/// The CSRF token for a credential under a key.
pub open spec fn csrf_token_text(secret: Seq<u8>, credential_binding: Seq<char>) -> Seq<char> {
    base64_text(hmac_sha256(secret, csrf_message(credential_binding)))
}

/// Whether a text is a CSRF token for a credential under a key.
pub open spec fn csrf_accepts(secret: Seq<u8>, credential_binding: Seq<char>, provided: Seq<char>) -> bool {
    provided == csrf_token_text(secret, credential_binding)
}

/// The outcome of the Host check.
pub open spec fn host_check(expected: Seq<char>, hosts: Seq<Option<Seq<char>>>) -> Result<(), RequestSecurityError> {
    if hosts.len() == 0 || hosts[0] is None {
        Err(RequestSecurityError::MissingHost)
    } else if hosts.len() > 1 {
        Err(RequestSecurityError::AmbiguousHost)
    } else if ascii_lowered(hosts[0]->0) != ascii_lowered(expected) {
        Err(RequestSecurityError::MismatchedHost)
    } else {
        Ok(())
    }
}

/// Whether fetch metadata speaks of the same origin, or of no page at all.
pub open spec fn same_origin_fetch(site: Seq<char>) -> bool {
    site == "same-origin"@ || site == "none"@
}

/// The outcome of the Origin check alone.
pub open spec fn origin_check(
    expected: Seq<char>,
    origins: Seq<Option<Seq<char>>>,
    fetch_sites: Seq<Option<Seq<char>>>,
) -> Result<(), RequestSecurityError> {
    if origins.len() == 0 || origins[0] is None {
        Err(RequestSecurityError::MissingOrigin)
    } else if origins.len() > 1 {
        Err(RequestSecurityError::AmbiguousOrigin)
    } else if origins[0]->0 != expected {
        Err(RequestSecurityError::MismatchedOrigin)
    } else if fetch_sites.len() > 0 && fetch_sites[0] is Some && !same_origin_fetch(fetch_sites[0]->0) {
        Err(RequestSecurityError::CrossSiteFetch)
    } else {
        Ok(())
    }
}

/// Whether one of the readable fetch-metadata values speaks of another origin.
pub open spec fn cross_site(fetch_sites: Seq<Option<Seq<char>>>) -> bool {
    exists|i: int|
        0 <= i < fetch_sites.len() && (#[trigger] fetch_sites[i]) is Some && !same_origin_fetch(
            fetch_sites[i]->0,
        )
}

/// The configured admin origin and the CSRF signing key.
pub struct RequestSecurity {
    expected_origin: String,
    expected_host: String,
    csrf_secret: Vec<u8>,
}

/// The authority of a URL: its host, and its port when that is not the scheme's
/// own.
pub open spec fn authority(url: UrlView) -> Seq<char> {
    match url.port {
        Some(port) => url.host->0 + ":"@ + decimal(port as nat),
        None => url.host->0,
    }
}

/// Whether a URL is an http(s) origin and nothing more.
pub open spec fn bare_origin(url: UrlView) -> bool {
    &&& web_scheme(url)
    &&& url.host is Some
    &&& url.username.len() == 0
    &&& url.password is None
    &&& url.query is None
    &&& url.fragment is None
    &&& url.path == "/"@
}

/// What is wrong with a configured origin and key.
pub open spec fn config_error(origin: Seq<char>, secret: Seq<u8>) -> Option<SecurityConfigError> {
    if secret.len() < MIN_CSRF_SECRET_BYTES {
        Some(SecurityConfigError::SecretTooShort)
    } else {
        parts_error(url_parts(trimmed(origin)))
    }
}

/// What is wrong with the parts of a configured origin.
pub open spec fn parts_error(url: Option<UrlView>) -> Option<SecurityConfigError> {
    match url {
        None => Some(SecurityConfigError::OriginNotAbsolute),
        Some(url) => if bare_origin(url) {
            None
        } else {
            Some(SecurityConfigError::OriginNotBare)
        },
    }
}

/// The origin that is used when none is configured.
pub open spec fn loopback_origin(port: u16) -> Seq<char> {
    "http://127.0.0.1:"@ + decimal(port as nat)
}

/// A configured value that is not blank, as it stands.
pub open spec fn not_blank(value: Option<Seq<char>>) -> Option<Seq<char>> {
    match value {
        Some(value) => if trimmed(value).len() > 0 {
            Some(value)
        } else {
            None
        },
        None => None,
    }
}

/// The origin in force: the configured one, or the loopback origin outside
/// release builds.
pub open spec fn origin_in_force(origin: Option<Seq<char>>, port: u16, release_hardened: bool) -> Option<Seq<char>> {
    match not_blank(origin) {
        Some(origin) => Some(origin),
        None => if release_hardened {
            None
        } else {
            Some(loopback_origin(port))
        },
    }
}

/// The signing key in force: the configured one, or a fixed one outside release
/// builds.
pub open spec fn secret_in_force(secret: Option<Seq<char>>, release_hardened: bool) -> Option<Seq<u8>> {
    match not_blank(secret) {
        Some(secret) => Some(encode_utf8(secret)),
        None => if release_hardened {
            None
        } else {
            Some(encode_utf8("fiducia-admin-debug-only-csrf-key-never-production"@))
        },
    }
}

/// What is wrong with the settings of a build.
pub open spec fn settings_error(
    origin: Option<Seq<char>>,
    secret: Option<Seq<char>>,
    port: u16,
    release_hardened: bool,
) -> Option<SecurityConfigError> {
    match (origin_in_force(origin, port, release_hardened), secret_in_force(secret, release_hardened)) {
        (None, _) => Some(SecurityConfigError::OriginUnset),
        (_, None) => Some(SecurityConfigError::SecretUnset),
        (Some(origin), Some(secret)) => match config_error(origin, secret) {
            Some(error) => Some(error),
            None => release_error(url_origin(trimmed(origin)), release_hardened),
        },
    }
}

/// What is wrong with a serialized origin in a build.
pub open spec fn release_error(origin: Seq<char>, release_hardened: bool) -> Option<SecurityConfigError> {
    if release_hardened && !"https://"@.is_prefix_of(origin) {
        Some(SecurityConfigError::OriginNotHttps)
    } else {
        None
    }
}

/// Whether a build may have a serialized origin.
pub fn check_release(origin: &str, release_hardened: bool) -> (result: Result<(), SecurityConfigError>)
    ensures
        result == (match release_error(origin@, release_hardened) {
            Some(error) => Err::<(), SecurityConfigError>(error),
            None => Ok(()),
        }),
{
    if release_hardened && !starts_with(origin, "https://") {
        Err(SecurityConfigError::OriginNotHttps)
    } else {
        Ok(())
    }
}

/// The value of a setting that is not blank.
fn filled<'a>(value: Option<&'a str>) -> (out: Option<&'a str>)
    ensures
        out.deep_view() == not_blank(value.deep_view()),
{
    match value {
        Some(value) => if trim(value).unicode_len() > 0 {
            Some(value)
        } else {
            None
        },
        None => None,
    }
}

/// The authority of a URL that is an http(s) origin and nothing more.
pub fn bare_authority(url: Option<UrlParts>) -> (host: Result<String, SecurityConfigError>)
    ensures
        match host {
            Ok(host) => {
                &&& url is Some
                &&& bare_origin(url->0@)
                &&& host@ == authority(url->0@)
            },
            Err(error) => parts_error(
                match url {
                    Some(url) => Some(url@),
                    None => None,
                },
            ) == Some(error),
        },
{
    let url = match url {
        Some(url) => url,
        None => return Err(SecurityConfigError::OriginNotAbsolute),
    };
    let scheme = url.scheme.as_str();
    if !(same_text(scheme, "http") || same_text(scheme, "https")) || url.username.as_str().unicode_len() > 0
        || url.password.is_some() || url.query.is_some() || url.fragment.is_some() || !same_text(
        url.path.as_str(),
        "/",
    ) {
        return Err(SecurityConfigError::OriginNotBare);
    }
    let host = match url.host {
        Some(host) => host,
        None => return Err(SecurityConfigError::OriginNotBare),
    };
    match url.port {
        Some(port) => {
            let mut text = host;
            text.append(":");
            text.append(decimal_text(port as u64).as_str());
            Ok(text)
        },
        None => Ok(host),
    }
}

/// Whether a text is the CSRF token for a credential under a key: it serves that
/// credential, and another one (or another key) only where the two tags are the
/// same.
pub open spec fn is_csrf_token(secret: Seq<u8>, credential_binding: Seq<char>, token: Seq<char>) -> bool {
    &&& token == csrf_token_text(secret, credential_binding)
    &&& forall|other_secret: Seq<u8>, other: Seq<char>| #[trigger]
        csrf_accepts(other_secret, other, token) <==> hmac_sha256(other_secret, csrf_message(other)) == hmac_sha256(
            secret,
            csrf_message(credential_binding),
        )
}

impl RequestSecurity {
    /// The one origin that browsers must come from.
    pub closed spec fn origin(&self) -> Seq<char> {
        self.expected_origin@
    }

    /// The one authority that requests must be addressed to.
    pub closed spec fn host(&self) -> Seq<char> {
        self.expected_host@
    }

    /// The CSRF signing key.
    pub closed spec fn secret(&self) -> Seq<u8> {
        self.csrf_secret@
    }

    /// The settings that a build runs with. A release build fails closed when
    /// the origin or the key is unset, or when the origin is not https; any other
    /// build falls back to an exact loopback origin and a fixed key.
    pub fn from_env(origin: Option<&str>, secret: Option<&str>, port: u16, release_hardened: bool) -> (security:
        Result<RequestSecurity, SecurityConfigError>)
        ensures
            match security {
                Ok(security) => {
                    let in_force = origin_in_force(origin.deep_view(), port, release_hardened)->0;
                    let url = url_parts(trimmed(in_force))->0;
                    &&& settings_error(origin.deep_view(), secret.deep_view(), port, release_hardened) is None
                    &&& security.origin() == url_origin(trimmed(in_force))
                    &&& security.host() == authority(url)
                    &&& Some(security.secret()) == secret_in_force(secret.deep_view(), release_hardened)
                },
                Err(error) => settings_error(origin.deep_view(), secret.deep_view(), port, release_hardened)
                    == Some(error),
            },
    {
        let origin = match filled(origin) {
            Some(origin) => origin.to_owned(),
            None => {
                if release_hardened {
                    return Err(SecurityConfigError::OriginUnset);
                }
                let mut origin = "http://127.0.0.1:".to_owned();
                origin.append(decimal_text(port as u64).as_str());
                origin
            },
        };
        let secret = match filled(secret) {
            Some(secret) => secret.as_bytes_vec(),
            None => {
                if release_hardened {
                    return Err(SecurityConfigError::SecretUnset);
                }
                "fiducia-admin-debug-only-csrf-key-never-production".as_bytes_vec()
            },
        };
        match RequestSecurity::new(origin.as_str(), secret) {
            Ok(security) => match check_release(security.expected_origin.as_str(), release_hardened) {
                Ok(_) => Ok(security),
                Err(error) => Err(error),
            },
            Err(error) => Err(error),
        }
    }

    /// The checks for one exact origin, signing tokens with one key.
    pub fn new(origin: &str, csrf_secret: Vec<u8>) -> (security: Result<RequestSecurity, SecurityConfigError>)
        ensures
            match security {
                Ok(security) => {
                    let url = url_parts(trimmed(origin@))->0;
                    &&& config_error(origin@, csrf_secret@) is None
                    &&& security.origin() == url_origin(trimmed(origin@))
                    &&& security.host() == authority(url)
                    &&& security.secret() == csrf_secret@
                },
                Err(error) => config_error(origin@, csrf_secret@) == Some(error),
            },
    {
        if csrf_secret.len() < MIN_CSRF_SECRET_BYTES {
            return Err(SecurityConfigError::SecretTooShort);
        }
        let text = trim(origin);
        match bare_authority(parse_url(text)) {
            Ok(expected_host) => Ok(
                RequestSecurity { expected_origin: origin_of(text), expected_host, csrf_secret },
            ),
            Err(error) => Err(error),
        }
    }

    /// Requires the exact configured authority among the Host values.
    pub fn check_host(&self, hosts: &Vec<Option<String>>) -> (result: Result<(), RequestSecurityError>)
        ensures
            result == host_check(self.host(), hosts.deep_view()),
    {
        if hosts.len() == 0 {
            return Err(RequestSecurityError::MissingHost);
        }
        assert(hosts.deep_view()[0] == hosts@[0].deep_view());
        match &hosts[0] {
            None => Err(RequestSecurityError::MissingHost),
            Some(host) => {
                if hosts.len() > 1 {
                    Err(RequestSecurityError::AmbiguousHost)
                } else if !eq_ignore_ascii_case(host.as_str(), self.expected_host.as_str()) {
                    Err(RequestSecurityError::MismatchedHost)
                } else {
                    Ok(())
                }
            },
        }
    }

    /// Requires the exact configured origin among the Origin values, and fetch
    /// metadata that does not contradict it.
    pub fn check_origin(&self, origins: &Vec<Option<String>>, fetch_sites: &Vec<Option<String>>) -> (result: Result<
        (),
        RequestSecurityError,
    >)
        ensures
            result == origin_check(self.origin(), origins.deep_view(), fetch_sites.deep_view()),
    {
        if origins.len() == 0 {
            return Err(RequestSecurityError::MissingOrigin);
        }
        assert(origins.deep_view()[0] == origins@[0].deep_view());
        let origin = match &origins[0] {
            Some(origin) => origin,
            None => return Err(RequestSecurityError::MissingOrigin),
        };
        if origins.len() > 1 {
            return Err(RequestSecurityError::AmbiguousOrigin);
        }
        if !same_text(origin.as_str(), self.expected_origin.as_str()) {
            return Err(RequestSecurityError::MismatchedOrigin);
        }
        if fetch_sites.len() > 0 {
            assert(fetch_sites.deep_view()[0] == fetch_sites@[0].deep_view());
            if let Some(site) = &fetch_sites[0] {
                if !same_text(site.as_str(), "same-origin") && !same_text(site.as_str(), "none") {
                    return Err(RequestSecurityError::CrossSiteFetch);
                }
            }
        }
        Ok(())
    }

    /// The outcome of the Host check on a request.
    pub open spec fn host_outcome(&self, headers: HeaderMap) -> Result<(), RequestSecurityError> {
        host_check(self.host(), header_texts(headers, "host"@))
    }

    /// The outcome of the Host and Origin checks on a browser request.
    pub open spec fn same_origin_outcome(&self, headers: HeaderMap) -> Result<(), RequestSecurityError> {
        if self.host_outcome(headers) is Err {
            self.host_outcome(headers)
        } else {
            origin_check(
                self.origin(),
                header_texts(headers, "origin"@),
                header_texts(headers, "sec-fetch-site"@),
            )
        }
    }

    /// The outcome of the checks on a bearer-authenticated API call.
    pub open spec fn api_outcome(&self, headers: HeaderMap) -> Result<(), RequestSecurityError> {
        if self.host_outcome(headers) is Err {
            self.host_outcome(headers)
        } else if header_texts(headers, "origin"@).len() > 0 {
            self.same_origin_outcome(headers)
        } else if cross_site(header_texts(headers, "sec-fetch-site"@)) {
            Err(RequestSecurityError::CrossSiteFetch)
        } else {
            Ok(())
        }
    }

    /// Requires the exact configured request authority.
    pub fn require_host(&self, headers: &HeaderMap) -> (result: Result<(), RequestSecurityError>)
        ensures
            result == self.host_outcome(*headers),
    {
        self.check_host(&texts(headers, "host"))
    }

    /// Requires a browser request to originate from the exact admin origin.
    /// `same-site` is rejected: sibling subdomains are not trusted.
    pub fn require_same_origin(&self, headers: &HeaderMap) -> (result: Result<(), RequestSecurityError>)
        ensures
            result == self.same_origin_outcome(*headers),
    {
        match self.require_host(headers) {
            Ok(_) => self.check_origin(&texts(headers, "origin"), &texts(headers, "sec-fetch-site")),
            Err(error) => Err(error),
        }
    }

    /// Validates an optional browser Origin on a bearer-authenticated API call.
    /// Other clients may omit Origin, but never bypass the exact Host check.
    pub fn require_api_host(&self, headers: &HeaderMap) -> (result: Result<(), RequestSecurityError>)
        ensures
            result == self.api_outcome(*headers),
    {
        match self.require_host(headers) {
            Ok(_) => {},
            Err(error) => return Err(error),
        }
        if texts(headers, "origin").len() > 0 {
            self.require_same_origin(headers)
        } else if any_cross_site(&texts(headers, "sec-fetch-site")) {
            Err(RequestSecurityError::CrossSiteFetch)
        } else {
            Ok(())
        }
    }

    /// The CSRF token for a credential. It serves that credential, and another one
    /// (or another key) only where the two tags are the same.
    pub fn csrf_token(&self, credential_binding: &str) -> (token: String)
        ensures
            is_csrf_token(self.secret(), credential_binding@, token@),
    {
        let message = csrf_message_bytes(credential_binding);
        let tag = hmac_tag(self.csrf_secret.as_slice(), message.as_slice());
        base64_encode(tag.as_slice())
    }

    /// Whether a provided text is the credential's CSRF token: every other text is
    /// refused, also one that decodes to nothing.
    pub fn verify_csrf_token(&self, credential_binding: &str, provided: &str) -> (result: Result<
        (),
        RequestSecurityError,
    >)
        ensures
            result == (if csrf_accepts(self.secret(), credential_binding@, provided@) {
                Ok::<(), RequestSecurityError>(())
            } else {
                Err(RequestSecurityError::InvalidCsrfToken)
            }),
    {
        let decoded = base64_decode(provided);
        proof {
            assert(csrf_token_text(self.secret(), credential_binding@) == provided@ <==> decoded.deep_view() == Some(
                hmac_sha256(self.secret(), csrf_message(credential_binding@)),
            ));
            if decoded is Some {
                assert(decoded.deep_view()->0 =~= decoded->0@);
            }
        }
        self.check_csrf_bytes(credential_binding, decoded)
    }

    /// Whether the bytes that a provided text decodes to are the credential's tag.
    pub fn check_csrf_bytes(&self, credential_binding: &str, decoded: Option<Vec<u8>>) -> (result: Result<
        (),
        RequestSecurityError,
    >)
        ensures
            result == (match decoded {
                Some(bytes) if bytes@ == hmac_sha256(self.secret(), csrf_message(credential_binding@)) => Ok::<
                    (),
                    RequestSecurityError,
                >(()),
                _ => Err(RequestSecurityError::InvalidCsrfToken),
            }),
    {
        match decoded {
            Some(bytes) => {
                let message = csrf_message_bytes(credential_binding);
                if hmac_verify(self.csrf_secret.as_slice(), message.as_slice(), bytes.as_slice()) {
                    Ok(())
                } else {
                    Err(RequestSecurityError::InvalidCsrfToken)
                }
            },
            None => Err(RequestSecurityError::InvalidCsrfToken),
        }
    }
}

/// Whether one of the readable fetch-metadata values speaks of another origin.
pub fn any_cross_site(fetch_sites: &Vec<Option<String>>) -> (result: bool)
    ensures
        result == cross_site(fetch_sites.deep_view()),
{
    let mut i: usize = 0;
    while i < fetch_sites.len()
        invariant
            i <= fetch_sites@.len(),
            forall|j: int|
                0 <= j < i && (#[trigger] fetch_sites.deep_view()[j]) is Some ==> same_origin_fetch(
                    fetch_sites.deep_view()[j]->0,
                ),
        decreases fetch_sites@.len() - i,
    {
        assert(fetch_sites.deep_view()[i as int] == fetch_sites@[i as int].deep_view());
        if let Some(site) = &fetch_sites[i] {
            if !same_text(site.as_str(), "same-origin") && !same_text(site.as_str(), "none") {
                assert(!same_origin_fetch(fetch_sites.deep_view()[i as int]->0));
                return true;
            }
        }
        i = i + 1;
    }
    false
}

/// Different credentials sign different messages: a token that serves two
/// credentials would take two messages with one tag.
pub proof fn law_csrf_messages_differ(a: Seq<char>, b: Seq<char>)
    ensures
        csrf_message(a) == csrf_message(b) <==> a == b,
{
    if csrf_message(a) == csrf_message(b) {
        let tag = encode_utf8("fiducia-admin-csrf-v1\0"@);
        assert(encode_utf8(a) =~= csrf_message(a).skip(tag.len() as int));
        assert(encode_utf8(b) =~= csrf_message(b).skip(tag.len() as int));
        lemma_utf8_injective(a, b);
    }
}

/// A token serves its own credential under its own key and no other, as far as
/// HMAC-SHA-256 gives no two of their messages one tag, and no other text than the
/// token serves that credential.
pub proof fn law_csrf_tokens_are_bound(
    secret: Seq<u8>,
    credential_binding: Seq<char>,
    token: Seq<char>,
    other_secret: Seq<u8>,
    other_binding: Seq<char>,
    provided: Seq<char>,
)
    requires
        is_csrf_token(secret, credential_binding, token),
        hmac_sha256(secret, csrf_message(credential_binding)) == hmac_sha256(
            other_secret,
            csrf_message(other_binding),
        ) ==> secret == other_secret && csrf_message(credential_binding) == csrf_message(other_binding),
    ensures
        csrf_accepts(secret, credential_binding, token),
        credential_binding != other_binding ==> !csrf_accepts(other_secret, other_binding, token),
        secret != other_secret ==> !csrf_accepts(other_secret, other_binding, token),
        provided != token ==> !csrf_accepts(secret, credential_binding, provided),
{
    law_csrf_messages_differ(credential_binding, other_binding);
}

/// A request from any origin but the configured one is turned away, whatever
/// its fetch metadata says, and so is one without an Origin or with several.
pub proof fn law_only_the_exact_origin_passes(
    expected: Seq<char>,
    origins: Seq<Option<Seq<char>>>,
    fetch_sites: Seq<Option<Seq<char>>>,
)
    ensures
        origin_check(expected, origins, fetch_sites) is Ok ==> origins == seq![Some(expected)],
        origins == seq![Some(expected)] ==> (origin_check(expected, origins, fetch_sites) is Ok <==> (
        fetch_sites.len() == 0 || fetch_sites[0] is None || same_origin_fetch(fetch_sites[0]->0))),
{
    if origin_check(expected, origins, fetch_sites) is Ok {
        assert(origins =~= seq![Some(expected)]);
    }
}

/// A browser request that passes also passes as an API call; the reverse holds
/// for every request that carries an Origin.
pub proof fn law_same_origin_is_the_stricter_check(security: RequestSecurity, headers: HeaderMap)
    ensures
        security.same_origin_outcome(headers) is Ok ==> security.api_outcome(headers) is Ok,
        header_texts(headers, "origin"@).len() > 0 ==> security.api_outcome(headers)
            == security.same_origin_outcome(headers),
{
}

} // verus!
