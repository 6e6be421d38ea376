//! The check of the base URL of an inference server: only an HTTP(S)
//! server on this machine is accepted, and its URL is normalized.

use vstd::prelude::*;
use crate::text;
use crate::text::{ascii_lower, trim, trim_end_slashes};

verus! {

broadcast use vstd::string::group_string_axioms;

/// What a URL check reads of a parsed URL.
#[derive(Debug, Clone, PartialEq, Eq)]
pub struct UrlParts {
    pub scheme: String,
    pub host: Option<String>,
    pub path: String,
}

/// A [`UrlParts`] as plain values.
pub struct UrlPartsView {
    pub scheme: Seq<char>,
    pub host: Option<Seq<char>>,
    pub path: Seq<char>,
}

impl View for UrlParts {
    type V = UrlPartsView;

    open spec fn view(&self) -> UrlPartsView {
        UrlPartsView {
            scheme: self.scheme@,
            host: text::opt_text(self.host),
            path: self.path@,
        }
    }
}

pub open spec fn parts_result_view(r: Result<UrlParts, String>) -> Result<UrlPartsView, Seq<char>> {
    match r {
        Ok(p) => Ok(p@),
        Err(e) => Err(e@),
    }
}

/// What `url::Url::parse` gives for a text: the scheme, host and path of
/// the URL, or the message of the parse error.
pub uninterp spec fn url_parts(input: Seq<char>) -> Result<UrlPartsView, Seq<char>>;

/// Calls `url::Url::parse` and reads `scheme`, `host_str` and `path`; the
/// result is named [`url_parts`].
#[verifier::external_body]
fn parse_url(input: &str) -> (r: Result<UrlParts, String>)
    ensures
        parts_result_view(r) == url_parts(input@),
{
    match url::Url::parse(input) {
        Ok(u) => Ok(UrlParts {
            scheme: u.scheme().to_string(),
            host: u.host_str().map(String::from),
            path: u.path().to_string(),
        }),
        Err(e) => Err(e.to_string()),
    }
}

/// What the `url` crate writes for the URL parsed from `input` once its path
/// is set to `path` and its query and fragment are removed.
pub uninterp spec fn url_with_path(input: Seq<char>, path: Seq<char>) -> Seq<char>;

/// Parses `input` with `url::Url::parse`, calls `set_path(path)`,
/// `set_query(None)` and `set_fragment(None)`, and returns `as_str()`; the
/// result is named [`url_with_path`] for inputs that parse.
#[verifier::external_body]
fn serialize_with_path(input: &str, path: &str) -> (r: String)
    requires
        url_parts(input@) is Ok,
    ensures
        r@ == url_with_path(input@, path@),
{
    match url::Url::parse(input) {
        Ok(mut u) => {
            u.set_path(path);
            u.set_query(None);
            u.set_fragment(None);
            u.as_str().to_string()
        },
        Err(_) => String::new(),
    }
}

/// The host names of this machine that a server may have.
pub open spec fn is_local_host(host: Seq<char>) -> bool {
    ||| host == "localhost"@
    ||| host == "127.0.0.1"@
    ||| host == "::1"@
    ||| host == "[::1]"@
    ||| host == "0.0.0.0"@
}

/// The path a checked base URL keeps, without its trailing slashes, or the
/// error that refuses the URL.
pub open spec fn base_url_path(parts: Result<UrlPartsView, Seq<char>>) -> Result<Seq<char>, Seq<char>> {
    match parts {
        Err(e) => Err("invalid base url: "@ + e),
        Ok(p) => if p.scheme != "http"@ && p.scheme != "https"@ {
            Err("base url must use http or https"@)
        } else {
            match p.host {
                None => Err("base url is missing a host"@),
                Some(h) => if !is_local_host(ascii_lower(h)) {
                    Err("only localhost inference backends are allowed"@)
                } else {
                    Ok(trim_end_slashes(p.path))
                },
            }
        },
    }
}

/// The base URL of a server as the chat uses it: the trimmed text parsed as
/// a URL, refused unless it is HTTP(S) on this machine, written without
/// query, fragment and trailing slashes.
pub open spec fn validated_base_url(base: Seq<char>) -> Result<Seq<char>, Seq<char>> {
    let input = trim(base);
    match base_url_path(url_parts(input)) {
        Err(e) => Err(e),
        Ok(path) => Ok(trim_end_slashes(url_with_path(input, path))),
    }
}

/// The server must be on this machine: a base URL is accepted only when it
/// parses with scheme `http` or `https` and its host, with ASCII capitals
/// made small, is exactly `localhost`, `127.0.0.1`, `::1`, `[::1]` or
/// `0.0.0.0`; an `http(s)` URL with any other host is refused with
/// `only localhost inference backends are allowed`.
pub proof fn lemma_only_local_servers(base: Seq<char>)
    ensures
        validated_base_url(base) is Ok ==> {
            &&& url_parts(trim(base)) matches Ok(p)
            &&& (p.scheme == "http"@ || p.scheme == "https"@)
            &&& p.host matches Some(h)
            &&& {
                ||| ascii_lower(h) == "localhost"@
                ||| ascii_lower(h) == "127.0.0.1"@
                ||| ascii_lower(h) == "::1"@
                ||| ascii_lower(h) == "[::1]"@
                ||| ascii_lower(h) == "0.0.0.0"@
            }
        },
        url_parts(trim(base)) matches Ok(p) ==> {
            (p.scheme == "http"@ || p.scheme == "https"@) ==> {
                p.host matches Some(h) ==> {
                    !{
                        ||| ascii_lower(h) == "localhost"@
                        ||| ascii_lower(h) == "127.0.0.1"@
                        ||| ascii_lower(h) == "::1"@
                        ||| ascii_lower(h) == "[::1]"@
                        ||| ascii_lower(h) == "0.0.0.0"@
                    } ==> validated_base_url(base) == Err::<Seq<char>, Seq<char>>(
                        "only localhost inference backends are allowed"@,
                    )
                }
            }
        },
{
}

pub open spec fn text_result_view(r: Result<String, String>) -> Result<Seq<char>, Seq<char>> {
    match r {
        Ok(s) => Ok(s@),
        Err(e) => Err(e@),
    }
}

fn error_with(prefix: &str, detail: &str) -> (r: String)
    ensures
        r@ == prefix@ + detail@,
{
    let mut m = prefix.to_string();
    m.append(detail);
    m
}

/// Decides on a parsed base URL: the path to keep, or why it is refused.
pub fn local_base_url_path(parts: Result<UrlParts, String>) -> (r: Result<String, String>)
    ensures
        text_result_view(r) == base_url_path(parts_result_view(parts)),
{
    let p = match parts {
        Err(e) => {
            return Err(error_with("invalid base url: ", e.as_str()));
        },
        Ok(p) => p,
    };
    let scheme = text::chars_of(p.scheme.as_str());
    if !text::is_text(&scheme, "http") && !text::is_text(&scheme, "https") {
        return Err("base url must use http or https".to_string());
    }
    let host = match &p.host {
        None => {
            return Err("base url is missing a host".to_string());
        },
        Some(h) => text::ascii_lower_chars(&text::chars_of(h.as_str())),
    };
    let local = text::is_text(&host, "localhost") || text::is_text(&host, "127.0.0.1")
        || text::is_text(&host, "::1") || text::is_text(&host, "[::1]") || text::is_text(
        &host,
        "0.0.0.0",
    );
    if !local {
        return Err("only localhost inference backends are allowed".to_string());
    }
    let path = text::trim_end_slashes_chars(&text::chars_of(p.path.as_str()));
    Ok(text::string_of(&path))
}

/// Checks and normalizes the base URL of an inference server.
pub fn validated_local_base_url(base_url: &str) -> (r: Result<String, String>)
    ensures
        text_result_view(r) == validated_base_url(base_url@),
        r matches Ok(s) ==> s@.len() == 0 || s@.last() != '/',
{
    let input = text::string_of(&text::trim_str(base_url));
    let parsed = parse_url(input.as_str());
    let path = local_base_url_path(parsed)?;
    let serialized = text::chars_of(serialize_with_path(input.as_str(), path.as_str()).as_str());
    proof {
        text::lemma_trim_end_slashes(serialized@);
    }
    Ok(text::string_of(&text::trim_end_slashes_chars(&serialized)))
}

} // verus!
