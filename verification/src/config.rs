//! Settings, as the process finds them in its environment.

use vstd::prelude::*;

use crate::request_security::not_blank;
use crate::session::{must_be_set, setting};
use crate::text::{
    ascii_lowered, debug_quoted, quoted, same_text, split, split_on, starts_with, to_ascii_lowercase, trim, trimmed,
};

verus! {

/// A required setting that is not blank, as it stands.
pub fn required_env(name: &str, value: Option<&str>) -> (result: Result<String, String>)
    ensures
        match result {
            Ok(text) => not_blank(value.deep_view()) == Some(text@),
            Err(error) => not_blank(value.deep_view()) is None && error@ == must_be_set(name@),
        },
{
    match value {
        Some(value) => if trim(value).unicode_len() > 0 {
            return Ok(value.to_owned());
        },
        None => {},
    }
    let mut error = name.to_owned();
    error.append(" must be set");
    Err(error)
}

/// An optional setting without surrounding white space: unset or blank means
/// that the feature is off.
pub fn optional_env(value: Option<&str>) -> (result: Option<String>)
    ensures
        result.deep_view() == setting(value.deep_view()),
{
    match value {
        Some(value) => {
            let value = trim(value);
            if value.unicode_len() > 0 {
                Some(value.to_owned())
            } else {
                None
            }
        },
        None => None,
    }
}

/// The entries of a list that are not blank, without surrounding white space.
pub open spec fn filled_entries(entries: Seq<Seq<char>>) -> Seq<Seq<char>>
    decreases entries.len(),
{
    if entries.len() == 0 {
        Seq::empty()
    } else {
        let before = filled_entries(entries.drop_last());
        let last = trimmed(entries.last());
        if last.len() > 0 {
            before.push(last)
        } else {
            before
        }
    }
}

/// The entries of a comma-separated setting.
pub open spec fn csv_entries(value: Option<Seq<char>>) -> Seq<Seq<char>> {
    match setting(value) {
        Some(value) => filled_entries(split(value, ',')),
        None => Seq::empty(),
    }
}

/// The entries of a comma-separated setting; blank ones are dropped.
pub fn csv_env(value: Option<&str>) -> (entries: Vec<String>)
    ensures
        entries.deep_view() == csv_entries(value.deep_view()),
{
    let mut entries: Vec<String> = Vec::new();
    let value = match optional_env(value) {
        Some(value) => value,
        None => {
            assert(entries.deep_view() =~= Seq::empty());
            return entries;
        },
    };
    let parts = split_on(value.as_str(), ',');
    let ghost pieces = parts.deep_view();
    let mut i: usize = 0;
    assert(entries.deep_view() =~= filled_entries(pieces.take(0)));
    while i < parts.len()
        invariant
            i <= parts@.len(),
            pieces == parts.deep_view(),
            entries.deep_view() == filled_entries(pieces.take(i as int)),
        decreases parts@.len() - i,
    {
        let ghost before = entries.deep_view();
        assert(pieces[i as int] == parts@[i as int]@);
        assert(pieces.take(i + 1).drop_last() =~= pieces.take(i as int));
        let entry = trim(parts[i].as_str());
        if entry.unicode_len() > 0 {
            entries.push(entry.to_owned());
            assert(entries.deep_view() =~= before.push(entry@));
        }
        i = i + 1;
    }
    assert(pieces.take(i as int) =~= pieces);
    entries
}

/// Whether a text may become a link on the cluster page: an http(s) URL, or a
/// path from the root, but not one that names another host.
pub open spec fn public_url_valid(value: Seq<char>) -> bool {
    let value = trimmed(value);
    ||| "http://"@.is_prefix_of(value)
    ||| "https://"@.is_prefix_of(value)
    ||| "/"@.is_prefix_of(value) && !"//"@.is_prefix_of(value)
}

/// Whether a text may become a link on the cluster page.
pub fn grafana_public_url_is_valid(value: &str) -> (valid: bool)
    ensures
        valid == public_url_valid(value@),
{
    let value = trim(value);
    starts_with(value, "http://") || starts_with(value, "https://") || (starts_with(value, "/") && !starts_with(
        value,
        "//",
    ))
}

/// What to tell the operator of a Grafana URL that is refused.
pub open spec fn grafana_url_error(value: Seq<char>) -> Seq<char> {
    "FIDUCIA_GRAFANA_PUBLIC_URL must be an http(s):// URL or a root-relative path starting with '/': got "@
        + debug_quoted(value)
}

/// The Grafana URL: off when unset, and refused when it could lead elsewhere.
pub fn validated_grafana_public_url(value: Option<&str>) -> (result: Result<Option<String>, String>)
    ensures
        match result {
            Ok(url) => url.deep_view() == setting(value.deep_view()) && (setting(value.deep_view()) matches Some(url)
                ==> public_url_valid(url)),
            Err(error) => setting(value.deep_view()) matches Some(url) && !public_url_valid(url) && error@
                == grafana_url_error(url),
        },
{
    match optional_env(value) {
        None => Ok(None),
        Some(url) => if grafana_public_url_is_valid(url.as_str()) {
            Ok(Some(url))
        } else {
            let mut error = "FIDUCIA_GRAFANA_PUBLIC_URL must be an http(s):// URL or a root-relative path starting with '/': got ".to_owned();
            error.append(quoted(url.as_str()).as_str());
            Err(error)
        },
    }
}

/// A link that is accepted never runs a script and never leaves for a host that
/// a path hides.
pub proof fn law_accepted_links_are_plain(value: Seq<char>)
    requires
        public_url_valid(value),
    ensures
        !"javascript:"@.is_prefix_of(trimmed(value)),
        !"data:"@.is_prefix_of(trimmed(value)),
        !"//"@.is_prefix_of(trimmed(value)),
{
    let text = trimmed(value);
    reveal_strlit("http://");
    reveal_strlit("https://");
    reveal_strlit("/");
    reveal_strlit("//");
    reveal_strlit("javascript:");
    reveal_strlit("data:");
    if "http://"@.is_prefix_of(text) {
        assert(text.subrange(0, "http://"@.len() as int)[0] == 'h');
    } else if "https://"@.is_prefix_of(text) {
        assert(text.subrange(0, "https://"@.len() as int)[0] == 'h');
    } else {
        assert(text.subrange(0, "/"@.len() as int)[0] == '/');
    }
    if "javascript:"@.is_prefix_of(text) {
        assert(text.subrange(0, "javascript:"@.len() as int)[0] == 'j');
    }
    if "data:"@.is_prefix_of(text) {
        assert(text.subrange(0, "data:"@.len() as int)[0] == 'd');
    }
    if "//"@.is_prefix_of(text) {
        assert(text.subrange(0, "//"@.len() as int)[0] == '/');
    }
}

/// Whether a flag is switched on: only by `1` or `true`, in any case.
pub open spec fn switched_on(value: Option<Seq<char>>) -> bool {
    value matches Some(value) && (ascii_lowered(trimmed(value)) == "1"@ || ascii_lowered(trimmed(value)) == "true"@)
}

/// Whether a flag is switched on.
pub fn explicitly_enabled(value: Option<&str>) -> (enabled: bool)
    ensures
        enabled == switched_on(value.deep_view()),
{
    match value {
        Some(value) => {
            let lowered = to_ascii_lowercase(trim(value));
            same_text(lowered.as_str(), "1") || same_text(lowered.as_str(), "true")
        },
        None => false,
    }
}

} // verus!
