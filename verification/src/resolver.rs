//! The target resolver: from the path and query of an inbound request to the
//! absolute URL that the request names.
//!
//! The text is put together, `scheme://` is restored, the result is parsed as
//! an absolute URL, and the scheme is checked: only `http` and `https` pass.

use crate::denormalize::{
    assemble, assembled, denormalize, denormalized, is_scheme, lead, lemma_denormalize_keeps_url,
    lemma_denormalize_path_form, slashes,
};
use crate::message::StatusCode;
use crate::text::same_text;
use vstd::prelude::*;

verus! {

/// `url::ParseError`: the error of `url::Url::parse`, carried as it came.
#[verifier::external_type_specification]
#[verifier::external_body]
pub struct ExParseError(url::ParseError);

/// What the resolver reads of a parsed URL, as mathematical text.
pub struct UrlRecord {
    /// The whole URL in its normal form.
    pub href: Seq<char>,
    /// The scheme, in lower case and without the colon.
    pub scheme: Seq<char>,
    /// The host as it is written in the URL, where the URL has one.
    pub host: Option<Seq<char>>,
}

/// What the resolver reads of a parsed URL.
#[derive(Debug, PartialEq, Eq)]
pub struct UrlParts {
    /// The whole URL in its normal form.
    pub href: String,
    /// The scheme, in lower case and without the colon.
    pub scheme: String,
    /// The host as it is written in the URL, where the URL has one.
    pub host: Option<String>,
}

impl View for UrlParts {
    type V = UrlRecord;

    open spec fn view(&self) -> UrlRecord {
        UrlRecord {
            href: self.href@,
            scheme: self.scheme@,
            host: match self.host {
                Some(host) => Some(host@),
                None => None,
            },
        }
    }
}

/// What `url::Url::parse` makes of a text: the parts of the URL it returns, or
/// `None` where it returns an error.
pub uninterp spec fn parsed_url(text: Seq<char>) -> Option<UrlRecord>;

/// Calls `url::Url::parse` and copies out of the URL its serialization
/// (`String::from`), its scheme (`Url::scheme`) and the text of its host
/// (`Url::host`, where there is one). Nothing is claimed of what the parser
/// accepts or how it normalizes: the contract only gives the outcome its name,
/// `parsed_url`, so that the same text is known to give the same parts.
#[verifier::external_body]
fn parse_url(text: &str) -> (r: Result<UrlParts, url::ParseError>)
    ensures
        match r {
            Ok(parts) => parsed_url(text@) == Some(parts@),
            Err(_) => parsed_url(text@) is None,
        },
{
    let parsed = url::Url::parse(text)?;
    Ok(
        UrlParts {
            scheme: parsed.scheme().to_string(),
            host: parsed.host().map(|host| host.to_string()),
            href: String::from(parsed),
        },
    )
}

/// The text that `url::ParseError` displays for an error. Nothing is claimed
/// of it.
#[verifier::external_body]
fn parse_error_text(error: &url::ParseError) -> (text: String) {
    error.to_string()
}

/// Why no target could be taken from a request.
#[derive(Debug, PartialEq, Eq)]
pub enum ShakyUrlError {
    /// The target parsed, and was turned down for the reason given: its
    /// scheme is neither `http` nor `https`, or it names no host.
    String(String),
    /// The target is no well-formed absolute URL.
    ParseError(url::ParseError),
}

/// The only schemes that the proxy forwards to.
pub open spec fn scheme_allowed(scheme: Seq<char>) -> bool {
    scheme == "http"@ || scheme == "https"@
}

/// The rejection that names a scheme.
pub open spec fn unknown_scheme_text(scheme: Seq<char>) -> Seq<char> {
    "Unknown scheme: "@ + scheme
}

/// The rejection of a URL that names no host to forward to.
pub open spec fn missing_host_text() -> Seq<char> {
    "Missing host"@
}

/// The one-line form of a parse failure: the text that did not parse, and
/// what the parser said of it.
pub open spec fn invalid_url_text(uri: Seq<char>, detail: Seq<char>) -> Seq<char> {
    "Invalid url "@ + uri + " Original error: "@ + detail
}

/// What becomes of a parsed URL: it is the target where its scheme is `http`
/// or `https` and it has a host, and is turned down with a message otherwise.
pub open spec fn accepted(parts: UrlRecord) -> Result<UrlRecord, Seq<char>> {
    if !scheme_allowed(parts.scheme) {
        Err(unknown_scheme_text(parts.scheme))
    } else if parts.host is None {
        Err(missing_host_text())
    } else {
        Ok(parts)
    }
}

/// The absolute URL that a request names. Its scheme is `http` or `https`,
/// and it has a host.
#[derive(Debug, PartialEq, Eq)]
pub struct ShakyUrl {
    href: String,
    scheme: String,
    host: String,
}

impl View for ShakyUrl {
    type V = UrlRecord;

    closed spec fn view(&self) -> UrlRecord {
        UrlRecord { href: self.href@, scheme: self.scheme@, host: Some(self.host@) }
    }
}

/// Whether `r` is what resolving gives for a URL that parsed into `parts`.
pub open spec fn resolves_parts(r: Result<ShakyUrl, ShakyUrlError>, parts: UrlRecord) -> bool {
    match accepted(parts) {
        Ok(url) => r matches Ok(target) && target@ == url,
        Err(reason) => r matches Err(ShakyUrlError::String(message)) && message@ == reason,
    }
}

/// Whether `r` is what resolving gives for the target text `uri`, before
/// `scheme://` is restored in it.
pub open spec fn resolves(r: Result<ShakyUrl, ShakyUrlError>, uri: Seq<char>) -> bool {
    match parsed_url(denormalized(uri)) {
        Some(parts) => resolves_parts(r, parts),
        None => r matches Err(ShakyUrlError::ParseError(_)),
    }
}

/// Whether `r` is what resolving gives for `uri` where every failure is
/// reported as one line of text.
pub open spec fn resolves_as_text(r: Result<ShakyUrl, String>, uri: Seq<char>) -> bool {
    match parsed_url(denormalized(uri)) {
        Some(parts) => match accepted(parts) {
            Ok(url) => r matches Ok(target) && target@ == url,
            Err(reason) => r matches Err(message) && message@ == reason,
        },
        None => r matches Err(message) && exists|detail: Seq<char>|
            message@ == invalid_url_text(denormalized(uri), detail),
    }
}

/// The message that turns down `scheme`.
pub fn unknown_scheme_message(scheme: &str) -> (message: String)
    ensures
        message@ == unknown_scheme_text(scheme@),
{
    let mut message: String = String::from_str("Unknown scheme: ");
    message.append(scheme);
    message
}

/// The one-line report of a text that did not parse.
pub fn invalid_url_message(uri: &str, detail: &str) -> (message: String)
    ensures
        message@ == invalid_url_text(uri@, detail@),
{
    let mut message: String = String::from_str("Invalid url ");
    message.append(uri);
    message.append(" Original error: ");
    message.append(detail);
    assert(message@ =~= invalid_url_text(uri@, detail@));
    message
}

impl ShakyUrlError {
    /// The status of the response that reports this error.
    pub fn status_code(&self) -> (status: StatusCode)
        ensures
            status@ == 500,
    {
        StatusCode::internal_server_error()
    }

    /// The text of the error. For a parse failure it is what the parser says
    /// of it.
    pub fn message(&self) -> (text: String)
        ensures
            self matches ShakyUrlError::String(reason) ==> text@ == reason@,
    {
        match self {
            ShakyUrlError::String(reason) => reason.clone(),
            ShakyUrlError::ParseError(error) => parse_error_text(error),
        }
    }
}

impl ShakyUrl {
    #[verifier::type_invariant]
    spec fn scheme_is_allowed(self) -> bool {
        scheme_allowed(self.scheme@)
    }

    /// Decides on a parsed URL: it becomes the target where its scheme is
    /// `http` or `https` and it has a host.
    pub fn accept(parts: UrlParts) -> (r: Result<ShakyUrl, ShakyUrlError>)
        ensures
            resolves_parts(r, parts@),
    {
        let UrlParts { href, scheme, host } = parts;
        if !(same_text(scheme.as_str(), "https") || same_text(scheme.as_str(), "http")) {
            return Err(ShakyUrlError::String(unknown_scheme_message(scheme.as_str())));
        }
        match host {
            Some(host) => Ok(ShakyUrl { href, scheme, host }),
            None => Err(ShakyUrlError::String(String::from_str("Missing host"))),
        }
    }

    /// Resolves the target of a request from the tail of its path and its
    /// query string.
    pub fn from_request(url_no_query: &str, query_string: &str) -> (r: Result<
        ShakyUrl,
        ShakyUrlError,
    >)
        ensures
            resolves(r, assembled(url_no_query@, query_string@)),
    {
        let uri: String = assemble(url_no_query, query_string);
        let uri: String = denormalize(uri.as_str());
        match parse_url(uri.as_str()) {
            Ok(parts) => ShakyUrl::accept(parts),
            Err(error) => Err(ShakyUrlError::ParseError(error)),
        }
    }

    /// Resolves a target given as one text, and reports a failure as one line.
    pub fn try_from(uri: &str) -> (r: Result<ShakyUrl, String>)
        ensures
            resolves_as_text(r, uri@),
    {
        let uri: String = denormalize(uri);
        match parse_url(uri.as_str()) {
            Ok(parts) => match ShakyUrl::accept(parts) {
                Ok(target) => Ok(target),
                Err(error) => Err(error.message()),
            },
            Err(error) => {
                let detail: String = parse_error_text(&error);
                let message: String = invalid_url_message(uri.as_str(), detail.as_str());
                assert(message@ == invalid_url_text(uri@, detail@));
                Err(message)
            },
        }
    }

    /// The whole URL, as it is sent to the origin and as it keys the cache.
    pub fn as_str(&self) -> (href: &str)
        ensures
            href@ == self@.href,
    {
        self.href.as_str()
    }

    /// The scheme: `http` or `https`.
    pub fn scheme(&self) -> (scheme: &str)
        ensures
            scheme@ == self@.scheme,
            scheme_allowed(scheme@),
    {
        proof {
            use_type_invariant(self);
        }
        self.scheme.as_str()
    }

    /// The host, as the `host` header of the request to the origin gives it.
    pub fn host(&self) -> (host: &str)
        ensures
            Some(host@) == self@.host,
    {
        self.host.as_str()
    }
}

impl Clone for ShakyUrl {
    fn clone(&self) -> (copy: Self)
        ensures
            copy@ == self@,
    {
        proof {
            use_type_invariant(self);
        }
        ShakyUrl { href: self.href.clone(), scheme: self.scheme.clone(), host: self.host.clone() }
    }
}

/// Whatever text names it, a URL whose scheme is neither `http` nor `https`
/// is never a target: resolving fails with the message that names the scheme.
pub proof fn lemma_other_schemes_rejected(r: Result<ShakyUrl, ShakyUrlError>, uri: Seq<char>)
    requires
        resolves(r, uri),
    ensures
        forall|parts: UrlRecord|
            parsed_url(denormalized(uri)) == Some(parts) && parts.scheme != "http"@
                && parts.scheme != "https"@ ==> (r matches Err(ShakyUrlError::String(message))
                && message@ == unknown_scheme_text(parts.scheme)),
{
}

/// `http` and `https` are schemes as the path form knows them.
pub proof fn lemma_allowed_schemes_are_schemes()
    ensures
        is_scheme("http"@),
        is_scheme("https"@),
{
    reveal_strlit("http");
    reveal_strlit("https");
}

/// The path form of a URL resolves as the URL itself does: with or without a
/// leading slash, and with any positive number of slashes behind the colon.
pub proof fn lemma_path_form_resolves_as_url(
    r: Result<ShakyUrl, ShakyUrlError>,
    leading_slash: bool,
    scheme: Seq<char>,
    k: nat,
    rest: Seq<char>,
)
    requires
        is_scheme(scheme),
        k >= 1,
        rest.len() == 0 || rest[0] != '/',
    ensures
        resolves(r, lead(leading_slash) + scheme + seq![':'] + slashes(k) + rest) == resolves(
            r,
            scheme + seq![':', '/', '/'] + rest,
        ),
{
    lemma_denormalize_path_form(leading_slash, scheme, k, rest);
    lemma_denormalize_keeps_url(scheme, rest);
}

} // verus!
