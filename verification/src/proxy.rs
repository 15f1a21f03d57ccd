//! The proxy core: what to do with a request, step by step.
//!
//! The core neither reads the store nor calls the origin. It says what is to
//! be done next, is told how that went, and says what follows. `cache` takes a
//! request in; `execute` takes each outcome in.

use crate::db::{
    captured, served, status_admitted, upsert_of, CacheError, CacheSettings, Entry, EntryView,
    Row, RowView, Upsert, UpsertView,
};
use crate::denormalize::{assembled, denormalized};
use crate::headers::{
    as_map, flattened, headers_of_json, json_of_headers, lemma_ascending_distinct,
    lemma_flattened_values, lemma_same_map_same_values, names_ascending, outbound,
    outbound_headers, values_in, values_of,
};
use crate::message::{
    is_status_code, OriginRequest, OriginRequestView, Request, RequestView, Response,
    ResponseView, StatusCode,
};
use crate::resolver::{accepted, parsed_url, ShakyUrl, ShakyUrlError, UrlRecord};
use crate::text::{decimal, lemma_decimal_injective, same_text};
use vstd::prelude::*;
use vstd::string::StringSliceAdditionalSpecFns;

verus! {

/// The route on which the server takes requests for the proxy, as a resource
/// pattern of actix-web: the target follows the prefix, its scheme `http` or
/// `https` in lower case, and is handed on as `url_no_query`.
pub const PROXY_ROUTE: &'static str = "/proxy/{url_no_query:https?:/.*}";

/// What an exchange is waiting for.
#[derive(Debug, PartialEq, Eq)]
pub enum Exchange {
    /// The store has been asked for the row of the request.
    Reading { method: String, target: ShakyUrl, headers: Vec<(String, String)> },
    /// The origin has been sent the request.
    Fetching { method: String, url: String },
    /// The store has been given the captured response.
    Writing { entry: Entry },
    /// The client has its answer.
    Closed,
}

/// How what was asked for went.
#[derive(Debug, PartialEq, Eq)]
pub enum Event {
    /// The store was read: the row of the key, where it holds one that the
    /// read statement lets through.
    Row(Option<Row>),
    /// The origin answered, and its whole body is here.
    Origin(Response),
    /// The store took the write.
    Written,
    /// The store gave no connection, or the statement failed.
    StoreFailed,
}

/// What is to be done next.
#[derive(Debug, PartialEq, Eq)]
pub enum Action {
    /// Run the read statement of the policy with these parameters.
    Lookup { method: String, url: String },
    /// Send this request to the origin and await the whole response.
    Fetch(OriginRequest),
    /// Run the write statement with these parameters.
    Store(Upsert),
    /// Send this response to the client.
    Respond(Response),
    /// Tell the client that no target could be taken from its request.
    Reject(ShakyUrlError),
    /// Tell the client that the proxy failed.
    Fail(CacheError),
}

/// The method that is answered without a look at the cache.
pub open spec fn options_method() -> Seq<char> {
    "OPTIONS"@
}

/// The answer to `OPTIONS`: status 200 and the two headers that open the
/// proxy to every origin and every header.
pub open spec fn options_reply() -> ResponseView {
    ResponseView {
        status_code: 200,
        headers: seq![
            ("access-control-allow-origin"@, "*"@),
            ("access-control-allow-headers"@, "*"@),
        ],
        body: Seq::empty(),
    }
}

/// The answer to a path that is not on the proxy route.
pub open spec fn not_found_reply() -> ResponseView {
    ResponseView {
        status_code: 404,
        headers: seq![("content-type"@, "application/json"@)],
        body: "{\"errors\":[{\"status\":\"404\"}]}".spec_bytes(),
    }
}

/// Whether `next` closes the exchange with `response`.
pub open spec fn responds(next: (Exchange, Action), response: ResponseView) -> bool {
    &&& next.0 is Closed
    &&& next.1 matches Action::Respond(sent)
    &&& sent@ == response
}

/// Whether `next` closes the exchange with the failure `error`.
pub open spec fn fails(next: (Exchange, Action), error: CacheError) -> bool {
    &&& next.0 is Closed
    &&& next.1 == Action::Fail(error)
}

/// Whether `next` asks the store for the row of `method` and `target`, and
/// keeps the request for the case that the store has none.
pub open spec fn looks_up(
    next: (Exchange, Action),
    method: Seq<char>,
    target: UrlRecord,
    headers: Seq<(Seq<char>, Seq<char>)>,
) -> bool {
    &&& next.0 matches Exchange::Reading {
        method: kept_method,
        target: kept_url,
        headers: kept_headers,
    }
    &&& kept_method@ == method
    &&& kept_url@ == target
    &&& kept_headers.deep_view() == headers
    &&& next.1 matches Action::Lookup { method: key_method, url: key_url }
    &&& key_method@ == method
    &&& key_url@ == target.href
}

/// Whether `next` sends the request on to the origin: the method and the
/// target of the client, the client's headers, and `host` set to the host of
/// the target.
pub open spec fn forwards(
    next: (Exchange, Action),
    method: Seq<char>,
    target: UrlRecord,
    headers: Seq<(Seq<char>, Seq<char>)>,
) -> bool {
    &&& target.host matches Some(host)
    &&& next.0 matches Exchange::Fetching { method: kept_method, url: kept_url }
    &&& kept_method@ == method
    &&& kept_url@ == target.href
    &&& next.1 matches Action::Fetch(request)
    &&& request@ == (OriginRequestView {
        method: method,
        url: target.href,
        headers: outbound(headers, host),
    })
}

/// Whether `next` writes `entry` to the store, its headers in the JSON form
/// `headers`, and keeps the entry to be served once it is written.
pub open spec fn stores(next: (Exchange, Action), entry: EntryView, headers: Seq<char>) -> bool {
    &&& next.0 matches Exchange::Writing { entry: kept_entry }
    &&& kept_entry@ == entry
    &&& next.1 matches Action::Store(upsert)
    &&& upsert@ == upsert_of(entry, headers)
    &&& headers_of_json(headers) == Some(as_map(entry.headers))
}

/// Whether `next` is what follows the capture of `entry`: it is written,
/// unless its headers cannot be written as JSON.
pub open spec fn follows_origin(entry: EntryView, next: (Exchange, Action)) -> bool {
    match json_of_headers(as_map(entry.headers)) {
        Some(headers) => stores(next, entry, headers),
        None => fails(next, CacheError::Unwritable),
    }
}

/// Whether `response` serves `row`: its status and body, and its headers as
/// they read back from their stored form, name by name in ascending order and
/// every value on a line of its own.
pub open spec fn serves_row(response: ResponseView, row: RowView) -> bool {
    &&& response.status_code == row.status_code
    &&& response.body == row.content
    &&& exists|groups: Seq<(Seq<char>, Seq<Seq<char>>)>|
        {
            &&& names_ascending(groups)
            &&& headers_of_json(row.headers) == Some(as_map(groups))
            &&& response.headers == flattened(groups)
        }
}

/// Whether `next` closes the exchange with a response that serves `row`.
pub open spec fn serves(next: (Exchange, Action), row: RowView) -> bool {
    &&& next.0 is Closed
    &&& next.1 matches Action::Respond(sent)
    &&& serves_row(sent@, row)
}

/// Whether `next` is what follows a read of the store that gave `row`.
pub open spec fn follows_read(
    settings: CacheSettings,
    method: Seq<char>,
    target: UrlRecord,
    headers: Seq<(Seq<char>, Seq<char>)>,
    row: Option<Row>,
    now: i64,
    next: (Exchange, Action),
) -> bool {
    match row {
        None => forwards(next, method, target, headers),
        Some(row) => if row@.method != method || row@.url != target.href {
            forwards(next, method, target, headers)
        } else if !is_status_code(row.status_code as int) {
            fails(next, CacheError::Status)
        } else if headers_of_json(row@.headers) is None {
            fails(next, CacheError::Headers)
        } else if settings.admits_spec(
            row.status_code as int,
            row.last_update as int,
            now as int,
        ) {
            serves(next, row@)
        } else {
            forwards(next, method, target, headers)
        },
    }
}

/// Whether `next` closes the exchange by turning the request down for
/// `reason`.
pub open spec fn turns_down(next: (Exchange, Action), reason: Seq<char>) -> bool {
    &&& next.0 is Closed
    &&& next.1 matches Action::Reject(ShakyUrlError::String(message))
    &&& message@ == reason
}

/// Whether `next` closes the exchange by reporting that the target did not
/// parse.
pub open spec fn reports_parse_failure(next: (Exchange, Action)) -> bool {
    &&& next.0 is Closed
    &&& next.1 matches Action::Reject(ShakyUrlError::ParseError(_))
}

/// Whether `next` is what `cache` makes of `request`: `OPTIONS` is answered at
/// once; a target that does not parse or is not accepted closes the exchange;
/// for any other request the store is asked.
pub open spec fn begins(request: RequestView, next: (Exchange, Action)) -> bool {
    if request.method == options_method() {
        responds(next, options_reply())
    } else {
        match parsed_url(denormalized(assembled(request.url_no_query, request.query_string))) {
            None => reports_parse_failure(next),
            Some(parts) => match accepted(parts) {
                Ok(target) => looks_up(next, request.method, target, request.headers),
                Err(reason) => turns_down(next, reason),
            },
        }
    }
}

/// Whether `next` is what follows the capture of `entry`, where `upsert` holds
/// the parameters that write it unless its headers could not be written.
pub open spec fn follows_capture(
    entry: Entry,
    upsert: Option<Upsert>,
    next: (Exchange, Action),
) -> bool {
    match upsert {
        Some(upsert) => next == (Exchange::Writing { entry }, Action::Store(upsert)),
        None => fails(next, CacheError::Unwritable),
    }
}

/// Whether `next` is what `execute` makes of `event` in the state `exchange`
/// under the policy `settings` at `now`.
pub open spec fn executes(
    settings: CacheSettings,
    exchange: Exchange,
    event: Event,
    now: i64,
    next: (Exchange, Action),
) -> bool {
    match exchange {
        Exchange::Reading { method, target, headers } => match event {
            Event::Row(row) => follows_read(
                settings,
                method@,
                target@,
                headers.deep_view(),
                row,
                now,
                next,
            ),
            Event::StoreFailed => fails(next, CacheError::Unavailable),
            _ => fails(next, CacheError::OutOfTurn),
        },
        Exchange::Fetching { method, url } => match event {
            Event::Origin(response) => follows_origin(
                captured(method@, url@, response@, now),
                next,
            ),
            _ => fails(next, CacheError::OutOfTurn),
        },
        Exchange::Writing { entry } => match event {
            Event::Written => responds(next, served(entry@)),
            Event::StoreFailed => fails(next, CacheError::Unavailable),
            _ => fails(next, CacheError::OutOfTurn),
        },
        Exchange::Closed => fails(next, CacheError::OutOfTurn),
    }
}

/// The answer to `OPTIONS`.
pub fn options_response() -> (response: Response)
    ensures
        response@ == options_reply(),
{
    let mut headers: Vec<(String, String)> = Vec::new();
    headers.push((String::from_str("access-control-allow-origin"), String::from_str("*")));
    headers.push((String::from_str("access-control-allow-headers"), String::from_str("*")));
    assert(headers.deep_view() =~= options_reply().headers);
    Response { status_code: StatusCode::ok(), headers, body: Vec::new() }
}

/// The answer to a path that is not on the proxy route.
pub fn not_found() -> (response: Response)
    ensures
        response@ == not_found_reply(),
{
    let mut headers: Vec<(String, String)> = Vec::new();
    headers.push((String::from_str("content-type"), String::from_str("application/json")));
    assert(headers.deep_view() =~= not_found_reply().headers);
    Response {
        status_code: StatusCode::not_found(),
        headers,
        body: "{\"errors\":[{\"status\":\"404\"}]}".as_bytes_vec(),
    }
}

fn forward(method: String, url: ShakyUrl, headers: Vec<(String, String)>) -> (next: (
    Exchange,
    Action,
))
    ensures
        forwards(next, method@, url@, headers.deep_view()),
{
    let href: String = String::from_str(url.as_str());
    let request: OriginRequest = OriginRequest {
        method: method.clone(),
        url: String::from_str(url.as_str()),
        headers: outbound_headers(&headers, url.host()),
    };
    (Exchange::Fetching { method, url: href }, Action::Fetch(request))
}

/// Takes a request in: answers `OPTIONS` at once, turns down a request that
/// names no target, and has the store asked for anything else.
pub fn cache(request: Request) -> (next: (Exchange, Action))
    ensures
        begins(request@, next),
{
    let Request { method, url_no_query, query_string, headers } = request;
    if same_text(method.as_str(), "OPTIONS") {
        return (Exchange::Closed, Action::Respond(options_response()));
    }
    let resolved: Result<ShakyUrl, ShakyUrlError> = ShakyUrl::from_request(
        url_no_query.as_str(),
        query_string.as_str(),
    );
    match resolved {
        Ok(url) => {
            let key_method: String = method.clone();
            let key_url: String = String::from_str(url.as_str());
            (
                Exchange::Reading { method, target: url, headers },
                Action::Lookup { method: key_method, url: key_url },
            )
        },
        Err(error) => (Exchange::Closed, Action::Reject(error)),
    }
}

/// Has a captured entry written with the parameters in `upsert`, or fails
/// the exchange where there are none.
pub fn write_captured(entry: Entry, upsert: Option<Upsert>) -> (next: (Exchange, Action))
    ensures
        follows_capture(entry, upsert, next),
{
    match upsert {
        Some(upsert) => (Exchange::Writing { entry }, Action::Store(upsert)),
        None => (Exchange::Closed, Action::Fail(CacheError::Unwritable)),
    }
}

/// Takes the outcome of the last action in and says what follows.
///
/// A row is served only where it is the row of the key and the policy admits
/// it at `now`; any other row counts as none. A response of the origin is
/// written whatever the policy says, and served once it is written.
pub fn execute(settings: &CacheSettings, exchange: Exchange, event: Event, now: i64) -> (next: (
    Exchange,
    Action,
))
    ensures
        executes(*settings, exchange, event, now, next),
{
    match exchange {
        Exchange::Reading { method, target: url, headers } => match event {
            Event::Row(None) => forward(method, url, headers),
            Event::Row(Some(row)) => {
                if !same_text(row.method.as_str(), method.as_str()) || !same_text(
                    row.url.as_str(),
                    url.as_str(),
                ) {
                    return forward(method, url, headers);
                }
                match Entry::try_from(row) {
                    Err(error) => (Exchange::Closed, Action::Fail(error)),
                    Ok(entry) => {
                        if settings.admits(entry.status_code.as_u16(), entry.last_update, now) {
                            let response: Response = entry.into_response();
                            assert(serves_row(response@, row@)) by {
                                assert(names_ascending(entry.headers@));
                                assert(headers_of_json(row@.headers) == Some(
                                    as_map(entry.headers@),
                                ));
                            }
                            (Exchange::Closed, Action::Respond(response))
                        } else {
                            forward(method, url, headers)
                        }
                    },
                }
            },
            Event::StoreFailed => (Exchange::Closed, Action::Fail(CacheError::Unavailable)),
            _ => (Exchange::Closed, Action::Fail(CacheError::OutOfTurn)),
        },
        Exchange::Fetching { method, url } => match event {
            Event::Origin(response) => {
                let entry: Entry = Entry::capture(method, url, response, now);
                let upsert: Option<Upsert> = entry.upsert();
                write_captured(entry, upsert)
            },
            _ => (Exchange::Closed, Action::Fail(CacheError::OutOfTurn)),
        },
        Exchange::Writing { entry } => match event {
            Event::Written => (Exchange::Closed, Action::Respond(entry.into_response())),
            Event::StoreFailed => (Exchange::Closed, Action::Fail(CacheError::Unavailable)),
            _ => (Exchange::Closed, Action::Fail(CacheError::OutOfTurn)),
        },
        Exchange::Closed => (Exchange::Closed, Action::Fail(CacheError::OutOfTurn)),
    }
}

/// What the store holds once a write is done: the row of the key with the
/// values that were bound, its status the number that the bound numeral names.
pub open spec fn holds_written(row: RowView, upsert: UpsertView) -> bool {
    &&& row.method == upsert.method
    &&& row.url == upsert.url
    &&& row.content == upsert.content
    &&& row.headers == upsert.headers
    &&& row.status_code >= 0
    &&& decimal(row.status_code as nat) == upsert.status_code
}

/// `OPTIONS` is answered with status 200 and both headers that open the proxy
/// to other origins, and the exchange is closed with that: the store is
/// neither read nor written, and the origin is not called.
pub proof fn lemma_options_bypasses_cache(request: RequestView, next: (Exchange, Action))
    requires
        begins(request, next),
        request.method == options_method(),
    ensures
        next.0 is Closed,
        next.1 matches Action::Respond(sent) && sent@.status_code == 200 && sent@.headers.contains(
            ("access-control-allow-origin"@, "*"@),
        ) && sent@.headers.contains(("access-control-allow-headers"@, "*"@)),
{
    assert(options_reply().headers[0] == ("access-control-allow-origin"@, "*"@));
    assert(options_reply().headers[1] == ("access-control-allow-headers"@, "*"@));
}

/// A closed exchange stays closed: whatever comes in, the store is neither
/// read nor written and the origin is not called.
pub proof fn lemma_closed_stays_closed(
    settings: CacheSettings,
    event: Event,
    now: i64,
    next: (Exchange, Action),
)
    requires
        executes(settings, Exchange::Closed, event, now, next),
    ensures
        next.0 is Closed,
        next.1 is Fail,
{
}

/// The policy has no say in what is written: what follows a response of the
/// origin is the same under every policy.
pub proof fn lemma_write_ignores_policy(
    a: CacheSettings,
    b: CacheSettings,
    method: String,
    url: String,
    response: Response,
    now: i64,
    next: (Exchange, Action),
)
    ensures
        executes(a, Exchange::Fetching { method, url }, Event::Origin(response), now, next)
            == executes(b, Exchange::Fetching { method, url }, Event::Origin(response), now, next),
{
}

/// A row is served only where the policy admits it: with a time to live, not
/// at or beyond that age; with client errors off, not with a status from 400
/// to 499; with server errors off, not with a status from 500 to 599.
pub proof fn lemma_served_row_is_admitted(
    settings: CacheSettings,
    method: Seq<char>,
    target: UrlRecord,
    headers: Seq<(Seq<char>, Seq<char>)>,
    row: Row,
    now: i64,
    next: (Exchange, Action),
)
    requires
        follows_read(settings, method, target, headers, Some(row), now, next),
        next.1 is Respond,
    ensures
        row@.method == method,
        row@.url == target.href,
        settings.ttl_seconds() > 0 ==> now - row.last_update < settings.ttl_seconds(),
        !settings.allows_client_errors() ==> !(400 <= row.status_code <= 499),
        !settings.allows_server_errors() ==> !(500 <= row.status_code <= 599),
        row.status_code <= 599,
{
}

/// A row of the key whose status is a status code is served, where its
/// stored headers can be read, whatever its age if the time to live is zero,
/// and whatever the policy allows if its status is below 400 and it is fresh.
pub proof fn lemma_eligible_row_is_served(
    settings: CacheSettings,
    method: Seq<char>,
    target: UrlRecord,
    headers: Seq<(Seq<char>, Seq<char>)>,
    row: Row,
    now: i64,
    next: (Exchange, Action),
)
    requires
        follows_read(settings, method, target, headers, Some(row), now, next),
        row@.method == method,
        row@.url == target.href,
        is_status_code(row.status_code as int),
        settings.ttl_seconds() == 0 || now - row.last_update < settings.ttl_seconds(),
        row.status_code < 400 || status_admitted(
            settings.allows_client_errors(),
            settings.allows_server_errors(),
            row.status_code as int,
        ),
    ensures
        headers_of_json(row@.headers) is Some ==> serves(next, row@),
        headers_of_json(row@.headers) is None ==> fails(next, CacheError::Headers),
{
}

/// An entry that was written is served as it was written: where the store
/// holds what the write bound, the time to live is zero and the policy admits
/// the status, a read of its key is answered with the status and the body of
/// the entry, and with headers that give every name the values of the entry,
/// in their order.
pub proof fn lemma_written_entry_is_served(
    settings: CacheSettings,
    entry: EntryView,
    written: (Exchange, Action),
    row: Row,
    target: UrlRecord,
    headers: Seq<(Seq<char>, Seq<char>)>,
    now: i64,
    next: (Exchange, Action),
)
    requires
        follows_origin(entry, written),
        written.1 matches Action::Store(upsert) && holds_written(row@, upsert@),
        is_status_code(entry.status_code as int),
        entry.url == target.href,
        settings.ttl_seconds() == 0,
        status_admitted(
            settings.allows_client_errors(),
            settings.allows_server_errors(),
            entry.status_code as int,
        ),
        follows_read(settings, entry.method, target, headers, Some(row), now, next),
    ensures
        next.0 is Closed,
        next.1 matches Action::Respond(sent) && sent@.status_code == entry.status_code
            && sent@.body == entry.content && forall|name: Seq<char>|
            values_in(sent@.headers, name) == values_of(entry.headers, name),
{
    lemma_decimal_injective(row.status_code as nat, entry.status_code as nat);
    assert(serves(next, row@));
    match next.1 {
        Action::Respond(sent) => {
            let groups = choose|groups: Seq<(Seq<char>, Seq<Seq<char>>)>|
                {
                    &&& names_ascending(groups)
                    &&& headers_of_json(row@.headers) == Some(as_map(groups))
                    &&& sent@.headers == flattened(groups)
                };
            lemma_ascending_distinct(groups);
            assert forall|name: Seq<char>|
                values_in(sent@.headers, name) == values_of(entry.headers, name) by {
                lemma_flattened_values(groups, name);
                lemma_same_map_same_values(groups, entry.headers, name);
            }
        },
        _ => {},
    }
}

} // verus!
