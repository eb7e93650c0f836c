//! The request-building rules of the API client: base URL normalization,
//! request URLs and method names.
use crate::text::{chars_equal, chars_of, has_prefix, starts_with};
use vstd::prelude::*;
use vstd::string::StringExecFns;

verus! {

/// The base URL as the client uses it: kept when it starts with `http://` or
/// `https://`, otherwise prefixed with `https://`.
pub open spec fn spec_normalized_base_url(base_url: Seq<char>) -> Seq<char> {
    if has_prefix(base_url, "http://"@) || has_prefix(base_url, "https://"@) {
        base_url
    } else {
        "https://"@ + base_url
    }
}

/// Normalizes a base URL: a URL without an `http://` or `https://` scheme
/// gets `https://`.
pub fn normalize_base_url(base_url: String) -> (r: String)
    ensures
        r@ == spec_normalized_base_url(base_url@),
{
    if !starts_with(base_url.as_str(), "http://") && !starts_with(base_url.as_str(), "https://") {
        let prefix = "https://".to_owned();
        prefix.concat(base_url.as_str())
    } else {
        base_url
    }
}

/// The URL of a request: the base URL followed by the path.
pub fn request_url(base_url: &str, path: &str) -> (r: String)
    ensures
        r@ == base_url@ + path@,
{
    let base = base_url.to_owned();
    base.concat(path)
}

/// The headers every request carries: JSON content and a JSON answer.
pub open spec fn spec_request_headers() -> Seq<(Seq<char>, Seq<char>)> {
    seq![("Content-Type"@, "application/json"@), ("Accept"@, "application/json"@)]
}

/// The headers (name, value) every request carries.
pub fn request_headers() -> (r: Vec<(String, String)>)
    ensures
        r.deep_view() == spec_request_headers(),
{
    let mut r: Vec<(String, String)> = Vec::new();
    r.push(("Content-Type".to_owned(), "application/json".to_owned()));
    r.push(("Accept".to_owned(), "application/json".to_owned()));
    assert(r.deep_view() =~= spec_request_headers());
    r
}

/// The HTTP methods the client sends.
#[derive(Debug, Clone, Copy, PartialEq, Eq, Structural)]
pub enum HttpMethod {
    Get,
    Post,
    Patch,
    Put,
}

/// The method named by `name`: `POST`, `PATCH` and `PUT` name theirs, any
/// other name means `GET`.
pub open spec fn spec_method_of(name: Seq<char>) -> HttpMethod {
    if name == "POST"@ {
        HttpMethod::Post
    } else if name == "PATCH"@ {
        HttpMethod::Patch
    } else if name == "PUT"@ {
        HttpMethod::Put
    } else {
        HttpMethod::Get
    }
}

/// The method named by `name` (`GET` for an unknown name).
pub fn method_of(name: &str) -> (r: HttpMethod)
    ensures
        r == spec_method_of(name@),
{
    let n = chars_of(name);
    if chars_equal(&n, &chars_of("POST")) {
        HttpMethod::Post
    } else if chars_equal(&n, &chars_of("PATCH")) {
        HttpMethod::Patch
    } else if chars_equal(&n, &chars_of("PUT")) {
        HttpMethod::Put
    } else {
        HttpMethod::Get
    }
}

/// Normalizing a base URL twice is normalizing it once.
pub proof fn lemma_normalize_idempotent(base_url: Seq<char>)
    ensures
        spec_normalized_base_url(spec_normalized_base_url(base_url)) == spec_normalized_base_url(
            base_url,
        ),
{
    let n = spec_normalized_base_url(base_url);
    if n != base_url {
        let p = "https://"@;
        assert(n == p + base_url);
        assert(n.subrange(0, p.len() as int) =~= p);
        assert(has_prefix(n, p));
    }
}

} // verus!
