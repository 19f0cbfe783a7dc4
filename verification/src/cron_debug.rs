//! Operator-only cron diagnostics.
//!
//! Schedule metadata and run outcomes only: what a node answers passes through
//! [`crate::cron_redaction`] before it reaches a page or a reply.

use vstd::prelude::*;
use vstd::utf8::encode_utf8;

use crate::cron_redaction::{
    kind_of, law_targets_are_put_together_anew, law_what_is_shown_is_presentable,
    law_withheld_entries_are_never_shown, lemma_shown_target_stays, lemma_target_is_a_target, names_target,
    presentable, redact, redacted, same_but_withheld, same_target, show_target, shown_target, target_kind, withheld,
};
use crate::json::{items_field, items_view, json_parsed, text_field, Json, JsonNumber, JsonView};
use crate::reply::{error_reply, error_view, Reply, ReplyView};
use crate::request_security::{parse_url, url_parts, UrlParts, UrlView};
use crate::text::{
    chars_of, control, decimal, decimal_text, escaped, is_control, is_white_space, same_text, signed_decimal_text,
    trim, trimmed, urlencode, white_space,
};

verus! {

/// The longest organization id, in bytes.
pub const MAX_ORG_BYTES: usize = 128;

/// The longest schedule name, in bytes.
pub const MAX_SCHEDULE_BYTES: usize = 128;

/// How many runs are shown when no number is asked for.
pub const DEFAULT_HISTORY_LIMIT: usize = 50;

/// How many runs are shown at most.
pub const MAX_HISTORY_LIMIT: usize = 100;

/// The largest upstream answer, in bytes.
pub const MAX_UPSTREAM_BYTES: usize = 2_097_152;

/// The longest text that a URL is made from, in characters: far below where URL
/// offsets end.
pub const MAX_URL_CHARS: usize = 0x0400_0000;

/// Why a cron lookup failed.
#[derive(Clone, Copy, Debug, Eq, PartialEq, Structural)]
pub enum CronDebugError {
    NotConfigured,
    InvalidConfiguration,
    InvalidOrganization,
    InvalidSchedule,
    UpstreamUnavailable,
    UpstreamStatus(u16),
    OversizedResponse,
    InvalidResponse,
}

impl CronDebugError {
    /// The machine-readable reason.
    pub open spec fn reason(self) -> Seq<char> {
        match self {
            CronDebugError::NotConfigured => "cron_node_not_configured"@,
            CronDebugError::InvalidConfiguration => "cron_node_configuration_invalid"@,
            CronDebugError::InvalidOrganization => "invalid_organization"@,
            CronDebugError::InvalidSchedule => "invalid_schedule"@,
            CronDebugError::UpstreamUnavailable => "cron_node_unavailable"@,
            CronDebugError::UpstreamStatus(_) => "cron_node_rejected_request"@,
            CronDebugError::OversizedResponse => "cron_node_response_too_large"@,
            CronDebugError::InvalidResponse => "cron_node_response_invalid"@,
        }
    }

    /// The HTTP status of the reply: a client error of the upstream is passed
    /// on, any other upstream trouble is a bad gateway.
    pub open spec fn http_status(self) -> u16 {
        match self {
            CronDebugError::InvalidOrganization => 400,
            CronDebugError::InvalidSchedule => 400,
            CronDebugError::NotConfigured => 503,
            CronDebugError::InvalidConfiguration => 503,
            CronDebugError::UpstreamStatus(code) => if 400 <= code <= 499 {
                code
            } else {
                502
            },
            CronDebugError::UpstreamUnavailable => 502,
            CronDebugError::OversizedResponse => 502,
            CronDebugError::InvalidResponse => 502,
        }
    }

    /// The machine-readable reason.
    pub fn code(&self) -> (code: &'static str)
        ensures
            code@ == self.reason(),
    {
        match self {
            CronDebugError::NotConfigured => "cron_node_not_configured",
            CronDebugError::InvalidConfiguration => "cron_node_configuration_invalid",
            CronDebugError::InvalidOrganization => "invalid_organization",
            CronDebugError::InvalidSchedule => "invalid_schedule",
            CronDebugError::UpstreamUnavailable => "cron_node_unavailable",
            CronDebugError::UpstreamStatus(_) => "cron_node_rejected_request",
            CronDebugError::OversizedResponse => "cron_node_response_too_large",
            CronDebugError::InvalidResponse => "cron_node_response_invalid",
        }
    }

    /// The HTTP status of the reply.
    pub fn status(&self) -> (status: u16)
        ensures
            status == self.http_status(),
    {
        match *self {
            CronDebugError::InvalidOrganization => 400,
            CronDebugError::InvalidSchedule => 400,
            CronDebugError::NotConfigured => 503,
            CronDebugError::InvalidConfiguration => 503,
            CronDebugError::UpstreamStatus(code) => if 400 <= code && code <= 499 {
                code
            } else {
                502
            },
            CronDebugError::UpstreamUnavailable => 502,
            CronDebugError::OversizedResponse => 502,
            CronDebugError::InvalidResponse => 502,
        }
    }
}

/// The reply to a lookup that failed.
pub fn error_response(error: CronDebugError) -> (reply: Reply)
    ensures
        reply@ == error_view(error.http_status(), error.reason()),
{
    error_reply(error.status(), error.code())
}

/// Whether a text may be an organization id.
pub open spec fn org_acceptable(value: Seq<char>) -> bool {
    &&& value.len() > 0
    &&& encode_utf8(value).len() <= MAX_ORG_BYTES
    &&& forall|i: int| 0 <= i < value.len() ==> !control(#[trigger] value[i]) && !white_space(value[i])
}

/// Whether a text may be a schedule name.
pub open spec fn schedule_acceptable(value: Seq<char>) -> bool {
    &&& value.len() > 0
    &&& encode_utf8(value).len() <= MAX_SCHEDULE_BYTES
    &&& forall|i: int| 0 <= i < value.len() ==> !control(#[trigger] value[i])
}

/// Whether a text may be an organization id: not empty, not too long, and
/// without control characters and white space.
pub fn valid_org(value: &str) -> (valid: bool)
    ensures
        valid == org_acceptable(value@),
{
    let chars = chars_of(value);
    if chars.len() == 0 || value.as_bytes().len() > MAX_ORG_BYTES {
        return false;
    }
    let mut i: usize = 0;
    while i < chars.len()
        invariant
            i <= chars@.len(),
            chars@ == value@,
            forall|j: int| 0 <= j < i ==> !control(#[trigger] value@[j]) && !white_space(value@[j]),
        decreases chars@.len() - i,
    {
        if is_control(chars[i]) || is_white_space(chars[i]) {
            assert(control(value@[i as int]) || white_space(value@[i as int]));
            return false;
        }
        i = i + 1;
    }
    true
}

/// Whether a text may be a schedule name: not empty, not too long, and without
/// control characters.
pub fn valid_schedule(value: &str) -> (valid: bool)
    ensures
        valid == schedule_acceptable(value@),
{
    let chars = chars_of(value);
    if chars.len() == 0 || value.as_bytes().len() > MAX_SCHEDULE_BYTES {
        return false;
    }
    let mut i: usize = 0;
    while i < chars.len()
        invariant
            i <= chars@.len(),
            chars@ == value@,
            forall|j: int| 0 <= j < i ==> !control(#[trigger] value@[j]),
        decreases chars@.len() - i,
    {
        if is_control(chars[i]) {
            assert(control(value@[i as int]));
            return false;
        }
        i = i + 1;
    }
    true
}

/// How many runs are asked for: what the operator wants, held between one and
/// the most that are shown.
pub open spec fn history_limit(requested: Option<usize>) -> usize {
    let limit = match requested {
        Some(limit) => limit,
        None => DEFAULT_HISTORY_LIMIT,
    };
    if limit < 1 {
        1
    } else if limit > MAX_HISTORY_LIMIT {
        MAX_HISTORY_LIMIT
    } else {
        limit
    }
}

/// How many runs are asked for.
pub fn clamp_history_limit(requested: Option<usize>) -> (limit: usize)
    ensures
        limit == history_limit(requested),
        1 <= limit <= MAX_HISTORY_LIMIT,
{
    let limit: usize = match requested {
        Some(limit) => limit,
        None => DEFAULT_HISTORY_LIMIT,
    };
    if limit < 1 {
        1
    } else if limit > MAX_HISTORY_LIMIT {
        MAX_HISTORY_LIMIT
    } else {
        limit
    }
}

/// A URL made from a base and path segments.
pub struct CronUrl {
    pub text: String,
    pub path: String,
}

/// The texts of a [`CronUrl`].
pub struct CronUrlView {
    pub text: Seq<char>,
    pub path: Seq<char>,
}

impl View for CronUrl {
    type V = CronUrlView;

    open spec fn view(&self) -> CronUrlView {
        CronUrlView { text: self.text@, path: self.path@ }
    }
}

impl CronUrl {
    /// The URL's path, percent-encoded.
    pub fn path(&self) -> (path: &str)
        ensures
            path@ == self@.path,
    {
        self.path.as_str()
    }
}

/// The texts of path segments.
pub open spec fn segment_views(segments: Seq<&str>) -> Seq<Seq<char>> {
    segments.map_values(|segment: &str| segment@)
}

/// How long path segments are together.
pub open spec fn segments_length(segments: Seq<Seq<char>>) -> nat
    decreases segments.len(),
{
    if segments.len() == 0 {
        0
    } else {
        segments_length(segments.drop_last()) + segments.last().len() + 1
    }
}

/// A URL's text without its query.
pub uninterp spec fn url_without_query(text: Seq<char>) -> Option<Seq<char>>;

/// `reqwest::Url::parse`, then `set_query` with nothing: the text of the URL that
/// comes of it, which depends on the text alone; nothing where the text is no
/// URL. The text must be short enough for the URL's offsets.
#[verifier::external_body]
fn without_query(text: &str) -> (url: Option<String>)
    requires
        text@.len() <= MAX_URL_CHARS,
    ensures
        url.deep_view() == url_without_query(text@),
{
    let mut url = reqwest::Url::parse(text).ok()?;
    url.set_query(None);
    Some(url.to_string())
}

/// A URL's text without its fragment.
pub uninterp spec fn url_without_fragment(text: Seq<char>) -> Option<Seq<char>>;

/// `reqwest::Url::parse`, then `set_fragment` with nothing: the text of the URL
/// that comes of it, which depends on the text alone; nothing where the text is
/// no URL. The text must be short enough for the URL's offsets.
#[verifier::external_body]
fn without_fragment(text: &str) -> (url: Option<String>)
    requires
        text@.len() <= MAX_URL_CHARS,
    ensures
        url.deep_view() == url_without_fragment(text@),
{
    let mut url = reqwest::Url::parse(text).ok()?;
    url.set_fragment(None);
    Some(url.to_string())
}

/// A URL's text without an empty last segment of its path.
pub uninterp spec fn url_without_empty_segment(text: Seq<char>) -> Option<Seq<char>>;

/// `reqwest::Url::parse`, then `pop_if_empty` on the path: the text of the URL
/// that comes of it, which depends on the text alone; nothing where the text is
/// no URL, or one without a path of segments. The text must be short enough for
/// the URL's offsets.
#[verifier::external_body]
fn without_empty_segment(text: &str) -> (url: Option<String>)
    requires
        text@.len() <= MAX_URL_CHARS,
    ensures
        url.deep_view() == url_without_empty_segment(text@),
{
    let mut url = reqwest::Url::parse(text).ok()?;
    url.path_segments_mut().ok()?.pop_if_empty();
    Some(url.to_string())
}

/// A URL's text with further segments at the end of its path, each encoded as
/// one.
pub uninterp spec fn url_with_segments(text: Seq<char>, segments: Seq<Seq<char>>) -> Option<Seq<char>>;

/// `reqwest::Url::parse`, then `extend` on the path: the text of the URL that
/// comes of it, which depends on the text and the segments alone; nothing where
/// the text is no URL, or one without a path of segments. What is joined must be
/// short enough for the URL's offsets.
#[verifier::external_body]
fn with_segments(text: &str, segments: &[&str]) -> (url: Option<String>)
    requires
        text@.len() <= MAX_URL_CHARS,
        segments_length(segment_views(segments@)) <= MAX_URL_CHARS,
    ensures
        url.deep_view() == url_with_segments(text@, segment_views(segments@)),
{
    let mut url = reqwest::Url::parse(text).ok()?;
    url.path_segments_mut().ok()?.extend(segments);
    Some(url.to_string())
}

/// A URL's text with one more name and value in its query.
pub uninterp spec fn url_with_pair(text: Seq<char>, name: Seq<char>, value: Seq<char>) -> Option<Seq<char>>;

/// `reqwest::Url::parse`, then `append_pair` on the query: the text of the URL
/// that comes of it, which depends on the three arguments alone; nothing where
/// the text is no URL. What is joined must be short enough for the URL's offsets.
#[verifier::external_body]
fn with_pair(text: &str, name: &str, value: &str) -> (url: Option<String>)
    requires
        text@.len() <= MAX_URL_CHARS,
        name@.len() <= MAX_URL_CHARS,
        value@.len() <= MAX_URL_CHARS,
    ensures
        url.deep_view() == url_with_pair(text@, name@, value@),
{
    let mut url = reqwest::Url::parse(text).ok()?;
    url.query_pairs_mut().append_pair(name, value);
    Some(url.to_string())
}

/// A URL's text without its query and fragment, and with further segments at the
/// end of its path, in place of an empty last one.
pub open spec fn extended_url(text: Seq<char>, segments: Seq<Seq<char>>) -> Option<Seq<char>> {
    match url_without_query(text) {
        Some(text) => match url_without_fragment(text) {
            Some(text) => match url_without_empty_segment(text) {
                Some(text) => url_with_segments(text, segments),
                None => None,
            },
            None => None,
        },
        None => None,
    }
}

/// Whether the text of a URL, what it is extended by, and every text on the way
/// are short enough for a URL's offsets.
pub open spec fn stays_short(text: Seq<char>, segments: Seq<Seq<char>>) -> bool {
    &&& text.len() <= MAX_URL_CHARS
    &&& segments_length(segments) <= MAX_URL_CHARS
    &&& match url_without_query(text) {
        Some(text) => {
            &&& text.len() <= MAX_URL_CHARS
            &&& match url_without_fragment(text) {
                Some(text) => {
                    &&& text.len() <= MAX_URL_CHARS
                    &&& match url_without_empty_segment(text) {
                        Some(text) => {
                            &&& text.len() <= MAX_URL_CHARS
                            &&& match url_with_segments(text, segments) {
                                Some(text) => text.len() <= MAX_URL_CHARS,
                                None => true,
                            }
                        },
                        None => true,
                    }
                },
                None => true,
            }
        },
        None => true,
    }
}

/// A URL's text without its query and fragment, and with further segments at the
/// end of its path.
fn extend_url(text: &str, segments: &[&str]) -> (url: Option<String>)
    requires
        stays_short(text@, segment_views(segments@)),
    ensures
        url.deep_view() == extended_url(text@, segment_views(segments@)),
{
    match without_query(text) {
        Some(text) => match without_fragment(text.as_str()) {
            Some(text) => match without_empty_segment(text.as_str()) {
                Some(text) => with_segments(text.as_str(), segments),
                None => None,
            },
            None => None,
        },
        None => None,
    }
}

/// More segments are longer together.
proof fn lemma_segments_length_grows(segments: Seq<Seq<char>>, n: int)
    requires
        0 <= n <= segments.len(),
    ensures
        segments_length(segments.take(n)) <= segments_length(segments),
    decreases segments.len(),
{
    if n < segments.len() {
        lemma_segments_length_grows(segments.drop_last(), n);
        assert(segments.drop_last().take(n) =~= segments.take(n));
    } else {
        assert(segments.take(n) =~= segments);
    }
}

/// Whether path segments are together short enough for a URL's offsets.
fn segments_are_short(segments: &[&str]) -> (short: bool)
    ensures
        short == (segments_length(segment_views(segments@)) <= MAX_URL_CHARS),
{
    let ghost views = segment_views(segments@);
    let mut total: usize = 0;
    let mut i: usize = 0;
    while i < segments.len()
        invariant
            i <= segments@.len(),
            views == segment_views(segments@),
            total == segments_length(views.take(i as int)),
            total <= MAX_URL_CHARS,
        decreases segments@.len() - i,
    {
        let length: usize = segments[i].unicode_len();
        proof {
            assert(views.take(i + 1).drop_last() =~= views.take(i as int));
            assert(views.take(i + 1).last() == segments@[i as int]@);
            lemma_segments_length_grows(views, i + 1);
        }
        if length >= MAX_URL_CHARS - total {
            return false;
        }
        total = total + length + 1;
        i = i + 1;
    }
    assert(views.take(i as int) =~= views);
    true
}

/// Whether the text of a URL, what it is extended by, and every text on the way
/// are short enough for a URL's offsets.
fn url_stays_short(text: &str, segments: &[&str]) -> (short: bool)
    ensures
        short == stays_short(text@, segment_views(segments@)),
{
    if text.unicode_len() > MAX_URL_CHARS || !segments_are_short(segments) {
        return false;
    }
    let text = match without_query(text) {
        Some(text) => text,
        None => return true,
    };
    if text.as_str().unicode_len() > MAX_URL_CHARS {
        return false;
    }
    let text = match without_fragment(text.as_str()) {
        Some(text) => text,
        None => return true,
    };
    if text.as_str().unicode_len() > MAX_URL_CHARS {
        return false;
    }
    let text = match without_empty_segment(text.as_str()) {
        Some(text) => text,
        None => return true,
    };
    if text.as_str().unicode_len() > MAX_URL_CHARS {
        return false;
    }
    match with_segments(text.as_str(), segments) {
        Some(text) => text.as_str().unicode_len() <= MAX_URL_CHARS,
        None => true,
    }
}

/// Whether a base URL may be asked: http(s), with a host and no credentials.
pub open spec fn base_acceptable(url: UrlView) -> bool {
    &&& url.scheme == "http"@ || url.scheme == "https"@
    &&& url.username.len() == 0
    &&& url.password is None
    &&& url.host is Some
}

/// The URL under a base, unless the base may not be asked.
pub open spec fn built_url(raw: Seq<char>, segments: Seq<Seq<char>>) -> Result<CronUrlView, CronDebugError> {
    match url_parts(trimmed(raw)) {
        Some(url) => if base_acceptable(url) {
            match extended_url(trimmed(raw), segments) {
                Some(text) => match url_parts(text) {
                    Some(url) => Ok(CronUrlView { text, path: url.path }),
                    None => Err(CronDebugError::InvalidConfiguration),
                },
                None => Err(CronDebugError::InvalidConfiguration),
            }
        } else {
            Err(CronDebugError::InvalidConfiguration)
        },
        None => Err(CronDebugError::InvalidConfiguration),
    }
}

/// Whether a base URL may be asked.
pub fn base_is_acceptable(url: &UrlParts) -> (result: bool)
    ensures
        result == base_acceptable(url@),
{
    (same_text(url.scheme.as_str(), "http") || same_text(url.scheme.as_str(), "https"))
        && url.username.as_str().unicode_len() == 0 && url.password.is_none() && url.host.is_some()
}

/// The view of a URL or of why there is none.
pub open spec fn url_outcome(url: Result<CronUrl, CronDebugError>) -> Result<CronUrlView, CronDebugError> {
    match url {
        Ok(url) => Ok(url@),
        Err(error) => Err(error),
    }
}

/// The URL under a configured base, with each segment encoded as one segment of
/// its path. What is joined must be short enough for the URL's offsets.
pub fn build_url(raw: &str, segments: &[&str]) -> (url: Result<CronUrl, CronDebugError>)
    requires
        stays_short(trimmed(raw@), segment_views(segments@)),
    ensures
        url_outcome(url) == built_url(raw@, segment_views(segments@)),
{
    let text = trim(raw);
    match parse_url(text) {
        Some(parts) => if base_is_acceptable(&parts) {
            match extend_url(text, segments) {
                Some(text) => match parse_url(text.as_str()) {
                    Some(parts) => Ok(CronUrl { text, path: parts.path }),
                    None => Err(CronDebugError::InvalidConfiguration),
                },
                None => Err(CronDebugError::InvalidConfiguration),
            }
        } else {
            Err(CronDebugError::InvalidConfiguration)
        },
        None => Err(CronDebugError::InvalidConfiguration),
    }
}

/// The base URL in force: the one for cron, else the first explicit node.
pub open spec fn base_in_force(cron_node_url: Option<Seq<char>>, node_urls: Seq<Seq<char>>) -> Option<Seq<char>> {
    match cron_node_url {
        Some(url) => Some(url),
        None => if node_urls.len() > 0 {
            Some(node_urls[0])
        } else {
            None
        },
    }
}

/// Whether the URL under the base in force, and every text on the way to it, is
/// short enough for a URL's offsets.
pub open spec fn endpoint_fits(base: Option<Seq<char>>, segments: Seq<Seq<char>>) -> bool {
    base matches Some(raw) ==> stays_short(trimmed(raw), segments)
}

/// The base URL in force.
pub fn cron_base_url<'a>(cron_node_url: &'a Option<String>, node_urls: &'a Vec<String>) -> (base: Option<&'a str>)
    ensures
        base.deep_view() == base_in_force(cron_node_url.deep_view(), node_urls.deep_view()),
{
    match cron_node_url {
        Some(raw) => Some(raw.as_str()),
        None => if node_urls.len() > 0 {
            assert(node_urls.deep_view()[0] == node_urls@[0]@);
            Some(node_urls[0].as_str())
        } else {
            None
        },
    }
}

/// The URL under the base in force, with a limit in its query.
pub open spec fn endpoint_url(base: Option<Seq<char>>, segments: Seq<Seq<char>>, limit: nat) -> Result<
    Seq<char>,
    CronDebugError,
> {
    match base {
        Some(raw) => match built_url(raw, segments) {
            Ok(url) => match url_with_pair(url.text, "limit"@, decimal(limit)) {
                Some(text) => Ok(text),
                None => Err(CronDebugError::InvalidConfiguration),
            },
            Err(error) => Err(error),
        },
        None => Err(CronDebugError::NotConfigured),
    }
}

/// The view of a text or of why there is none.
pub open spec fn text_outcome(text: Result<String, CronDebugError>) -> Result<Seq<char>, CronDebugError> {
    match text {
        Ok(text) => Ok(text@),
        Err(error) => Err(error),
    }
}

/// The URL under the base in force, with a limit in its query. What is joined must
/// be short enough for the URL's offsets.
pub fn cron_url(base: Option<&str>, segments: &[&str], limit: u64) -> (url: Result<String, CronDebugError>)
    requires
        endpoint_fits(base.deep_view(), segment_views(segments@)),
    ensures
        text_outcome(url) == endpoint_url(base.deep_view(), segment_views(segments@), limit as nat),
{
    let raw = match base {
        Some(raw) => raw,
        None => return Err(CronDebugError::NotConfigured),
    };
    let url = match build_url(raw, segments) {
        Ok(url) => url,
        Err(error) => return Err(error),
    };
    proof {
        assert(ten_to(20) > u64::MAX) by {
            reveal_with_fuel(ten_to, 21);
        }
        lemma_decimal_length(limit as nat, 20);
        reveal_strlit("limit");
    }
    let number = decimal_text(limit);
    match with_pair(url.text.as_str(), "limit", number.as_str()) {
        Some(text) => Ok(text),
        None => Err(CronDebugError::InvalidConfiguration),
    }
}

/// The smallest number with more than `digits` decimal digits.
spec fn ten_to(digits: nat) -> nat
    decreases digits,
{
    if digits == 0 {
        1
    } else {
        10 * ten_to((digits - 1) as nat)
    }
}

/// A number below a power of ten has no more digits than its exponent.
proof fn lemma_decimal_length(n: nat, digits: nat)
    requires
        digits > 0,
        n < ten_to(digits),
    ensures
        decimal(n).len() <= digits,
    decreases n,
{
    if n >= 10 {
        assert(digits > 1) by {
            reveal_with_fuel(ten_to, 2);
        }
        lemma_decimal_length(n / 10, (digits - 1) as nat);
    }
}

/// The URL under the base in force, with a limit in its query; nothing where a
/// text on the way to it is too long for a URL's offsets.
pub fn fitting_cron_url(base: Option<&str>, segments: &[&str], limit: u64) -> (url: Option<
    Result<String, CronDebugError>,
>)
    ensures
        url is Some <==> endpoint_fits(base.deep_view(), segment_views(segments@)),
        url matches Some(url) ==> text_outcome(url) == endpoint_url(
            base.deep_view(),
            segment_views(segments@),
            limit as nat,
        ),
{
    if let Some(raw) = base {
        if !url_stays_short(trim(raw), segments) {
            return None;
        }
    }
    Some(cron_url(base, segments, limit))
}

/// The path of the schedule inventory.
pub open spec fn schedules_path() -> Seq<Seq<char>> {
    seq!["v1"@, "cron"@, "schedules"@]
}

/// The path of a schedule's run history.
pub open spec fn history_path(schedule: Seq<char>) -> Seq<Seq<char>> {
    seq!["v1"@, "cron"@, "schedules"@, schedule, "history"@]
}

/// The URL of the schedule inventory; nothing where a text on the way to it is too
/// long for a URL's offsets.
pub fn schedules_url(base: Option<&str>) -> (url: Option<Result<String, CronDebugError>>)
    ensures
        url is Some <==> endpoint_fits(base.deep_view(), schedules_path()),
        url matches Some(url) ==> text_outcome(url) == endpoint_url(base.deep_view(), schedules_path(), 200),
{
    let segments: [&str; 3] = ["v1", "cron", "schedules"];
    assert(segment_views(segments@) =~= schedules_path());
    fitting_cron_url(base, segments.as_slice(), 200)
}

/// The URL of a schedule's run history; nothing where a text on the way to it is
/// too long for a URL's offsets.
pub fn history_url(base: Option<&str>, schedule: &str, limit: usize) -> (url: Option<Result<String, CronDebugError>>)
    ensures
        url is Some <==> endpoint_fits(base.deep_view(), history_path(schedule@)),
        url matches Some(url) ==> text_outcome(url) == endpoint_url(
            base.deep_view(),
            history_path(schedule@),
            history_limit(Some(limit)) as nat,
        ),
{
    let limit: usize = clamp_history_limit(Some(limit));
    let segments: [&str; 5] = ["v1", "cron", "schedules", schedule, "history"];
    assert(segment_views(segments@) =~= history_path(schedule@));
    fitting_cron_url(base, segments.as_slice(), limit as u64)
}

/// What an upstream answer of known length comes to before its body is read.
pub fn check_announced_length(content_length: Option<u64>) -> (result: Result<(), CronDebugError>)
    ensures
        result == (match content_length {
            Some(length) if length > MAX_UPSTREAM_BYTES => Err::<(), CronDebugError>(
                CronDebugError::OversizedResponse,
            ),
            _ => Ok(()),
        }),
{
    match content_length {
        Some(length) => if length > MAX_UPSTREAM_BYTES as u64 {
            Err(CronDebugError::OversizedResponse)
        } else {
            Ok(())
        },
        None => Ok(()),
    }
}

/// What an upstream answer comes to: too long, not a success, not JSON, or the
/// value it carries.
pub open spec fn answer_outcome(status: u16, body: Seq<u8>) -> Result<JsonView, CronDebugError> {
    if body.len() > MAX_UPSTREAM_BYTES {
        Err(CronDebugError::OversizedResponse)
    } else if !(200 <= status <= 299) {
        Err(CronDebugError::UpstreamStatus(status))
    } else {
        match json_parsed(body) {
            Some(json) => Ok(json),
            None => Err(CronDebugError::InvalidResponse),
        }
    }
}

/// The view of a value or of why there is none.
pub open spec fn json_outcome(json: Result<Json, CronDebugError>) -> Result<JsonView, CronDebugError> {
    match json {
        Ok(json) => Ok(json@),
        Err(error) => Err(error),
    }
}

/// What an upstream answer comes to.
pub fn read_answer(status: u16, body: &[u8]) -> (json: Result<Json, CronDebugError>)
    ensures
        json_outcome(json) == answer_outcome(status, body@),
{
    if body.len() > MAX_UPSTREAM_BYTES {
        return Err(CronDebugError::OversizedResponse);
    }
    if !(200 <= status && status <= 299) {
        return Err(CronDebugError::UpstreamStatus(status));
    }
    match Json::from_bytes(body) {
        Some(json) => Ok(json),
        None => Err(CronDebugError::InvalidResponse),
    }
}

/// The lookup that the JSON inventory makes: the organization that is asked
/// about.
pub fn plan_list(org: &str) -> (plan: Result<String, Reply>)
    ensures
        match plan {
            Ok(found) => org_acceptable(trimmed(org@)) && found@ == trimmed(org@),
            Err(reply) => !org_acceptable(trimmed(org@)) && reply@ == error_view(400, "invalid_organization"@),
        },
{
    let org = trim(org);
    if valid_org(org) {
        Ok(org.to_owned())
    } else {
        Err(error_response(CronDebugError::InvalidOrganization))
    }
}

/// The lookup that the JSON history makes: the organization, and the number of
/// runs.
pub fn plan_history(org: &str, schedule: &str, limit: Option<usize>) -> (plan: Result<(String, usize), Reply>)
    ensures
        match plan {
            Ok((found, runs)) => {
                &&& org_acceptable(trimmed(org@))
                &&& schedule_acceptable(schedule@)
                &&& found@ == trimmed(org@)
                &&& runs == history_limit(limit)
            },
            Err(reply) => if !org_acceptable(trimmed(org@)) {
                reply@ == error_view(400, "invalid_organization"@)
            } else {
                !schedule_acceptable(schedule@) && reply@ == error_view(400, "invalid_schedule"@)
            },
        },
{
    let org = trim(org);
    if !valid_org(org) {
        return Err(error_response(CronDebugError::InvalidOrganization));
    }
    if !valid_schedule(schedule) {
        return Err(error_response(CronDebugError::InvalidSchedule));
    }
    Ok((org.to_owned(), clamp_history_limit(limit)))
}

/// The reply of the JSON routes: what is shown of the answer, or why there is
/// none.
pub open spec fn lookup_view(result: Result<JsonView, CronDebugError>) -> ReplyView {
    match result {
        Ok(json) => ReplyView { status: 200, body: redacted(json) },
        Err(error) => error_view(error.http_status(), error.reason()),
    }
}

/// The reply of the JSON routes.
pub fn lookup_reply(result: Result<Json, CronDebugError>) -> (reply: Reply)
    ensures
        reply@ == lookup_view(json_outcome(result)),
{
    match result {
        Ok(json) => Reply { status: 200, body: redact(json) },
        Err(error) => error_response(error),
    }
}

/// What the page looks up next.
pub enum CronLookup {
    /// The schedules of an organization.
    Schedules { org: String },
    /// The runs of one schedule.
    History { org: String, schedule: String, limit: usize },
    /// Nothing more.
    Rest,
}

/// How far the page has come.
#[derive(Clone, Copy, Debug, Eq, PartialEq, Structural)]
pub enum CronStage {
    Schedules,
    History,
    Rest,
}

/// The page as it is put together: what the operator asked for, what is shown of
/// what was found, and what went wrong first.
pub struct CronPage {
    pub org: Option<String>,
    pub schedule: Option<String>,
    pub limit: usize,
    pub schedules: Option<Json>,
    pub history: Option<Json>,
    pub error: Option<CronDebugError>,
    pub stage: CronStage,
}

/// What an operator typed, without surrounding white space; nothing when it is
/// blank.
pub open spec fn typed(value: Option<Seq<char>>) -> Option<Seq<char>> {
    match value {
        Some(value) => if trimmed(value).len() > 0 {
            Some(trimmed(value))
        } else {
            None
        },
        None => None,
    }
}

/// What an operator typed, without surrounding white space.
fn typed_text(value: &Option<String>) -> (out: Option<String>)
    ensures
        out.deep_view() == typed(value.deep_view()),
{
    match value {
        Some(value) => {
            let value = trim(value.as_str());
            if value.unicode_len() > 0 {
                Some(value.to_owned())
            } else {
                None
            }
        },
        None => None,
    }
}

impl CronPage {
    /// The stage that follows the schedules, when nothing has gone wrong: the
    /// history, if a schedule is named and may be.
    pub open spec fn after_schedules(&self, stage: CronStage, error: Option<CronDebugError>) -> bool {
        if self.error is Some {
            stage == CronStage::Rest && error == self.error
        } else if self.org is None || self.schedule is None {
            stage == CronStage::Rest && error is None
        } else if schedule_acceptable(self.schedule->0@) {
            stage == CronStage::History && error is None
        } else {
            stage == CronStage::Rest && error == Some(CronDebugError::InvalidSchedule)
        }
    }

    /// Whether the page's stage goes with what the operator asked for.
    pub open spec fn wf(&self) -> bool {
        &&& 1 <= self.limit <= MAX_HISTORY_LIMIT
        &&& self.stage != CronStage::Rest ==> self.org is Some && org_acceptable(self.org->0@) && self.error is None
        &&& self.stage == CronStage::History ==> self.schedule is Some && schedule_acceptable(self.schedule->0@)
    }

    /// The page before anything was looked up. Without an organization there is
    /// nothing to look up, and an unacceptable one is an error.
    pub fn new(org: &Option<String>, schedule: &Option<String>, limit: Option<usize>) -> (page: CronPage)
        ensures
            page.wf(),
            page.org.deep_view() == typed(org.deep_view()),
            page.schedule.deep_view() == typed(schedule.deep_view()),
            page.limit == history_limit(limit),
            page.schedules is None,
            page.history is None,
            match typed(org.deep_view()) {
                None => page.stage == CronStage::Rest && page.error is None,
                Some(org) => if org_acceptable(org) {
                    page.stage == CronStage::Schedules && page.error is None
                } else {
                    page.stage == CronStage::Rest && page.error == Some(CronDebugError::InvalidOrganization)
                },
            },
    {
        let org = typed_text(org);
        let schedule = typed_text(schedule);
        let limit: usize = clamp_history_limit(limit);
        let mut stage = CronStage::Rest;
        let mut error: Option<CronDebugError> = None;
        if let Some(found) = &org {
            if valid_org(found.as_str()) {
                stage = CronStage::Schedules;
            } else {
                error = Some(CronDebugError::InvalidOrganization);
            }
        }
        CronPage { org, schedule, limit, schedules: None, history: None, error, stage }
    }

    /// What the page looks up next.
    pub fn next_lookup(&self) -> (lookup: CronLookup)
        requires
            self.wf(),
        ensures
            match self.stage {
                CronStage::Schedules => lookup matches CronLookup::Schedules { org } && org@ == self.org->0@,
                CronStage::History => lookup matches CronLookup::History { org, schedule, limit } && org@
                    == self.org->0@ && schedule@ == self.schedule->0@ && limit == self.limit,
                CronStage::Rest => lookup is Rest,
            },
    {
        match (&self.stage, &self.org, &self.schedule) {
            (CronStage::Schedules, Some(org), _) => CronLookup::Schedules { org: org.clone() },
            (CronStage::History, Some(org), Some(schedule)) => CronLookup::History {
                org: org.clone(),
                schedule: schedule.clone(),
                limit: self.limit,
            },
            _ => CronLookup::Rest,
        }
    }

    /// The page with the result of its lookup. The first error ends it, and the
    /// history is looked up only once the schedules were found.
    pub fn record(self, result: Result<Json, CronDebugError>) -> (page: CronPage)
        requires
            self.wf(),
        ensures
            page.wf(),
            page.org == self.org,
            page.schedule == self.schedule,
            page.limit == self.limit,
            match self.stage {
                CronStage::Schedules => {
                    &&& page.history == self.history
                    &&& match result {
                        Ok(found) => page.schedules is Some && page.schedules->0@ == redacted(found@)
                            && self.after_schedules(page.stage, page.error),
                        Err(error) => page.schedules == self.schedules && page.stage == CronStage::Rest
                            && page.error == Some(error),
                    }
                },
                CronStage::History => {
                    &&& page.schedules == self.schedules
                    &&& page.stage == CronStage::Rest
                    &&& match result {
                        Ok(found) => page.history is Some && page.history->0@ == redacted(found@) && page.error is None,
                        Err(error) => page.history == self.history && page.error == Some(error),
                    }
                },
                CronStage::Rest => page == self,
            },
    {
        let mut page = self;
        match page.stage {
            CronStage::Schedules => match result {
                Ok(found) => {
                    page.schedules = Some(redact(found));
                    match &page.schedule {
                        Some(schedule) => if valid_schedule(schedule.as_str()) {
                            page.stage = CronStage::History;
                        } else {
                            page.stage = CronStage::Rest;
                            page.error = Some(CronDebugError::InvalidSchedule);
                        },
                        None => {
                            page.stage = CronStage::Rest;
                        },
                    }
                },
                Err(error) => {
                    page.stage = CronStage::Rest;
                    page.error = Some(error);
                },
            },
            CronStage::History => {
                page.stage = CronStage::Rest;
                match result {
                    Ok(found) => {
                        page.history = Some(redact(found));
                    },
                    Err(error) => {
                        page.error = Some(error);
                    },
                }
            },
            CronStage::Rest => {},
        }
        page
    }
}

/// A value in one cell of a table.
pub open spec fn scalar_text(json: JsonView) -> Seq<char> {
    match json {
        JsonView::Null => "—"@,
        JsonView::Text(text) => text,
        JsonView::Bool(flag) => if flag {
            "true"@
        } else {
            "false"@
        },
        JsonView::Number(number) => number.text(),
        _ => "[structured]"@,
    }
}

/// A field in one cell of a table: a dash when it is absent.
pub open spec fn cell_text(json: JsonView, key: Seq<char>) -> Seq<char> {
    match json.field(key) {
        Some(value) => scalar_text(value),
        None => "—"@,
    }
}

/// A value in one cell of a table.
pub fn scalar(value: &Json) -> (text: String)
    ensures
        text@ == scalar_text(value@),
{
    match value {
        Json::Null => "—".to_owned(),
        Json::Text(text) => text.clone(),
        Json::Bool(flag) => if *flag {
            "true".to_owned()
        } else {
            "false".to_owned()
        },
        Json::Number(JsonNumber::Unsigned(n)) => decimal_text(*n),
        Json::Number(JsonNumber::Negative(n)) => signed_decimal_text(*n),
        Json::Number(JsonNumber::Float(text)) => text.clone(),
        _ => "[structured]".to_owned(),
    }
}

/// A field in one cell of a table.
pub fn display_field(value: &Json, key: &str) -> (text: String)
    ensures
        text@ == cell_text(value@, key@),
{
    match value.get(key) {
        Some(value) => scalar(value),
        None => "—".to_owned(),
    }
}

/// A text field; nothing when it is absent.
pub open spec fn text_or_empty(json: JsonView, key: Seq<char>) -> Seq<char> {
    match text_field(json, key) {
        Some(text) => text,
        None => Seq::empty(),
    }
}

/// A text field; nothing when it is absent.
pub fn string_field(value: &Json, key: &str) -> (text: String)
    ensures
        text@ == text_or_empty(value@, key@),
{
    match value.get_str(key) {
        Some(text) => text.to_owned(),
        None => String::new(),
    }
}

/// When a schedule runs.
pub open spec fn mode_text(schedule: JsonView) -> Seq<char> {
    match text_field(schedule, "cron"@) {
        Some(cron) => cron,
        None => match schedule.field("one_shot_at_ms"@) {
            Some(at) => "one-shot "@ + scalar_text(at),
            None => "—"@,
        },
    }
}

/// When a schedule runs: its cron expression, or its one time.
pub fn schedule_mode(value: &Json) -> (text: String)
    ensures
        text@ == mode_text(value@),
{
    match value.get_str("cron") {
        Some(cron) => cron.to_owned(),
        None => match value.get("one_shot_at_ms") {
            Some(at) => {
                let mut text = "one-shot ".to_owned();
                text.append(scalar(at).as_str());
                text
            },
            None => "—".to_owned(),
        },
    }
}

/// What a schedule calls, without any address.
pub open spec fn target_text(target: Option<JsonView>) -> Seq<char> {
    match target {
        None => "—"@,
        Some(target) => {
            let shown = shown_target(target);
            let kind = target_kind(shown);
            if kind == "function"@ {
                "function:"@ + cell_text(shown, "function_id"@)
            } else if kind == "webhook"@ {
                "webhook:[redacted]"@
            } else if kind == "grpc"@ {
                "grpc:[redacted]"@
            } else {
                kind
            }
        },
    }
}

/// The view of an optional borrowed value.
pub open spec fn borrowed_view(json: Option<&Json>) -> Option<JsonView> {
    match json {
        Some(json) => Some(json@),
        None => None,
    }
}

/// What a schedule calls, without any address.
pub fn target_summary(target: Option<&Json>) -> (text: String)
    ensures
        text@ == target_text(borrowed_view(target)),
{
    let target = match target {
        Some(target) => target,
        None => return "—".to_owned(),
    };
    let shown = show_target(target);
    let kind = kind_of(&shown);
    if same_text(kind, "function") {
        let mut text = "function:".to_owned();
        text.append(display_field(&shown, "function_id").as_str());
        text
    } else if same_text(kind, "webhook") {
        "webhook:[redacted]".to_owned()
    } else if same_text(kind, "grpc") {
        "grpc:[redacted]".to_owned()
    } else {
        kind.to_owned()
    }
}

/// The tables say nothing of where a target points: targets of one kind, and for
/// functions of one id, look the same.
pub proof fn law_addresses_are_never_shown(a: JsonView, b: JsonView)
    requires
        same_target(a, b),
    ensures
        target_text(Some(a)) == target_text(Some(b)),
{
    law_targets_are_put_together_anew(a, b);
}

/// The tables lose nothing to what is withheld: an entry that is neither withheld
/// nor a target reads the same in what is shown of a schedule or a run, and so
/// does the summary of its target.
pub proof fn law_tables_lose_nothing(record: JsonView, key: Seq<char>)
    requires
        record matches JsonView::Object(members) ==> members.dom().finite(),
        !withheld(key),
        !names_target(key),
    ensures
        cell_text(redacted(record), key) == cell_text(record, key),
        text_field(redacted(record), key) == text_field(record, key),
        target_text(redacted(record).field("target"@)) == target_text(record.field("target"@)),
{
    reveal_with_fuel(redacted, 2);
    lemma_target_is_a_target();
    if let Some(target) = record.field("target"@) {
        lemma_shown_target_stays(target);
    }
}

/// The JSON routes say nothing of what is withheld: answers that differ in
/// nothing but withheld entries and the insides of their targets have one reply.
pub proof fn law_replies_show_nothing_withheld(a: JsonView, b: JsonView)
    requires
        same_but_withheld(a, b),
    ensures
        lookup_view(Ok(a)) == lookup_view(Ok(b)),
        presentable(lookup_view(Ok(a)).body),
{
    law_withheld_entries_are_never_shown(a, b);
    law_what_is_shown_is_presentable(a);
}

/// `value` as a value in a URL's query.
pub fn query_escape(value: &str) -> (text: String)
    ensures
        text@ == escaped(encode_utf8(value@)),
{
    urlencode(value)
}

/// One row of the schedule table.
pub struct ScheduleRow {
    pub name: String,
    pub mode: String,
    pub enabled: String,
    pub target: String,
    /// Where the schedule's runs are shown.
    pub href: String,
}

/// The link to a schedule's runs.
pub open spec fn runs_href(org: Seq<char>, name: Seq<char>) -> Seq<char> {
    "/crons?org="@ + escaped(encode_utf8(org)) + "&schedule="@ + escaped(encode_utf8(name))
}

/// Whether a row shows a schedule of an organization.
pub open spec fn shows_schedule(row: ScheduleRow, schedule: JsonView, org: Seq<char>) -> bool {
    &&& row.name@ == text_or_empty(schedule, "name"@)
    &&& row.mode@ == mode_text(schedule)
    &&& row.enabled@ == cell_text(schedule, "enabled"@)
    &&& row.target@ == target_text(schedule.field("target"@))
    &&& row.href@ == runs_href(org, text_or_empty(schedule, "name"@))
}

/// The items under a key; none when there is no array.
pub open spec fn items_or_none(json: JsonView, key: Seq<char>) -> Seq<JsonView> {
    match items_field(json, key) {
        Some(items) => items,
        None => Seq::empty(),
    }
}

/// The rows of the schedule table.
pub fn schedule_rows(value: &Json, org: &str) -> (rows: Vec<ScheduleRow>)
    ensures
        rows@.len() == items_or_none(value@, "schedules"@).len(),
        forall|i: int|
            0 <= i < rows@.len() ==> shows_schedule(
                #[trigger] rows@[i],
                items_or_none(value@, "schedules"@)[i],
                org@,
            ),
{
    let mut rows: Vec<ScheduleRow> = Vec::new();
    if let Some(items) = value.get_array("schedules") {
        let mut i: usize = 0;
        proof {
            crate::json::lemma_items_view(items@);
        }
        while i < items.len()
            invariant
                i <= items@.len(),
                rows@.len() == i,
                items_view(items@).len() == items@.len(),
                forall|j: int| 0 <= j < items@.len() ==> #[trigger] items_view(items@)[j] == items@[j]@,
                forall|j: int|
                    0 <= j < i ==> shows_schedule(#[trigger] rows@[j], items_view(items@)[j], org@),
            decreases items@.len() - i,
        {
            let item = &items[i];
            assert(items_view(items@)[i as int] == item@);
            let name = string_field(item, "name");
            let mut href = "/crons?org=".to_owned();
            href.append(query_escape(org).as_str());
            href.append("&schedule=");
            href.append(query_escape(name.as_str()).as_str());
            rows.push(
                ScheduleRow {
                    name,
                    mode: schedule_mode(item),
                    enabled: display_field(item, "enabled"),
                    target: target_summary(item.get("target")),
                    href,
                },
            );
            i = i + 1;
        }
    }
    rows
}

/// One row of the run table.
pub struct RunRow {
    pub fire_id: String,
    pub status: String,
    pub trigger: String,
    pub attempts: String,
    pub duration_ms: String,
    pub http_status: String,
    pub error_class: String,
    pub trace_id: String,
}

/// Whether a row shows a run.
pub open spec fn shows_run(row: RunRow, run: JsonView) -> bool {
    &&& row.fire_id@ == cell_text(run, "fire_id"@)
    &&& row.status@ == cell_text(run, "status"@)
    &&& row.trigger@ == cell_text(run, "trigger"@)
    &&& row.attempts@ == cell_text(run, "attempts"@)
    &&& row.duration_ms@ == cell_text(run, "duration_ms"@)
    &&& row.http_status@ == cell_text(run, "http_status"@)
    &&& row.error_class@ == cell_text(run, "error_class"@)
    &&& row.trace_id@ == cell_text(run, "trace_id"@)
}

/// The rows of the run table.
pub fn history_rows(value: &Json) -> (rows: Vec<RunRow>)
    ensures
        rows@.len() == items_or_none(value@, "history"@).len(),
        forall|i: int|
            0 <= i < rows@.len() ==> shows_run(#[trigger] rows@[i], items_or_none(value@, "history"@)[i]),
{
    let mut rows: Vec<RunRow> = Vec::new();
    if let Some(items) = value.get_array("history") {
        let mut i: usize = 0;
        proof {
            crate::json::lemma_items_view(items@);
        }
        while i < items.len()
            invariant
                i <= items@.len(),
                rows@.len() == i,
                items_view(items@).len() == items@.len(),
                forall|j: int| 0 <= j < items@.len() ==> #[trigger] items_view(items@)[j] == items@[j]@,
                forall|j: int| 0 <= j < i ==> shows_run(#[trigger] rows@[j], items_view(items@)[j]),
            decreases items@.len() - i,
        {
            let item = &items[i];
            assert(items_view(items@)[i as int] == item@);
            rows.push(
                RunRow {
                    fire_id: display_field(item, "fire_id"),
                    status: display_field(item, "status"),
                    trigger: display_field(item, "trigger"),
                    attempts: display_field(item, "attempts"),
                    duration_ms: display_field(item, "duration_ms"),
                    http_status: display_field(item, "http_status"),
                    error_class: display_field(item, "error_class"),
                    trace_id: display_field(item, "trace_id"),
                },
            );
            i = i + 1;
        }
    }
    rows
}

} // verus!
