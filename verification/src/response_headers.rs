//! The headers that every response carries.

use vstd::prelude::*;

use crate::text::{same_text, starts_with};

verus! {

/// One header of a response.
pub struct ResponseHeader {
    pub name: &'static str,
    pub value: &'static str,
}

/// The name and value of a [`ResponseHeader`].
pub struct HeaderView {
    pub name: Seq<char>,
    pub value: Seq<char>,
}

impl View for ResponseHeader {
    type V = HeaderView;

    open spec fn view(&self) -> HeaderView {
        HeaderView { name: self.name@, value: self.value@ }
    }
}

/// Whether a path's responses must never be cached: all but the assets and the
/// health probe.
pub open spec fn sensitive_path(path: Seq<char>) -> bool {
    !"/assets/"@.is_prefix_of(path) && path != "/healthz"@
}

/// The sources that a page may load from: this origin, and inline images. Scripts
/// are the vendored bundles, which may compile WebAssembly; nothing may frame
/// the page or take its forms elsewhere.
pub open spec fn content_security_policy() -> Seq<char> {
    "default-src 'self'; script-src 'self' 'wasm-unsafe-eval'; style-src 'self'; img-src 'self' data:; connect-src 'self'; font-src 'self'; frame-ancestors 'none'; base-uri 'none'; form-action 'self'; object-src 'none'"@
}

/// A header with its value.
pub open spec fn header(name: Seq<char>, value: Seq<char>) -> HeaderView {
    HeaderView { name, value }
}

/// The headers of every response. Referrers stay within the origin rather than
/// being dropped: browsers would otherwise send form posts without their Origin.
pub open spec fn common_headers() -> Seq<HeaderView> {
    seq![
        header("content-security-policy"@, content_security_policy()),
        header("x-frame-options"@, "DENY"@),
        header("x-content-type-options"@, "nosniff"@),
        header("referrer-policy"@, "same-origin"@),
    ]
}

/// The headers of a response to a request for `path`.
pub open spec fn headers_for(path: Seq<char>) -> Seq<HeaderView> {
    if sensitive_path(path) {
        seq![header("cache-control"@, "no-store"@)] + common_headers()
    } else {
        common_headers()
    }
}

/// The headers of a response to a request for `path`.
pub fn security_headers(path: &str) -> (headers: Vec<ResponseHeader>)
    ensures
        headers@.map_values(|header: ResponseHeader| header@) == headers_for(path@),
{
    let mut headers: Vec<ResponseHeader> = Vec::new();
    if !starts_with(path, "/assets/") && !same_text(path, "/healthz") {
        headers.push(ResponseHeader { name: "cache-control", value: "no-store" });
    }
    headers.push(
        ResponseHeader {
            name: "content-security-policy",
            value: "default-src 'self'; script-src 'self' 'wasm-unsafe-eval'; style-src 'self'; img-src 'self' data:; connect-src 'self'; font-src 'self'; frame-ancestors 'none'; base-uri 'none'; form-action 'self'; object-src 'none'",
        },
    );
    headers.push(ResponseHeader { name: "x-frame-options", value: "DENY" });
    headers.push(ResponseHeader { name: "x-content-type-options", value: "nosniff" });
    headers.push(ResponseHeader { name: "referrer-policy", value: "same-origin" });
    assert(headers@.map_values(|header: ResponseHeader| header@) =~= headers_for(path@));
    headers
}

/// Every response denies framing, whatever was asked for.
pub proof fn law_every_response_denies_framing(path: Seq<char>)
    ensures
        headers_for(path).contains(header("x-frame-options"@, "DENY"@)),
        headers_for(path).contains(header("content-security-policy"@, content_security_policy())),
        sensitive_path(path) ==> headers_for(path).contains(header("cache-control"@, "no-store"@)),
{
    let all = headers_for(path);
    let n: int = if sensitive_path(path) { 1 } else { 0 };
    assert(all[n] == header("content-security-policy"@, content_security_policy()));
    assert(all[n + 1] == header("x-frame-options"@, "DENY"@));
    if sensitive_path(path) {
        assert(all[0] == header("cache-control"@, "no-store"@));
    }
}

} // verus!
