//! The cache store's statements and read policy.
//!
//! The store is one table keyed by `(method, url)`. This module holds the
//! text of the statements that create, read and write it, and the rule that
//! decides which stored rows may be served.

use crate::headers::{
    as_map, flattened, grouped, headers_of_json, json_of_headers, kept, kept_headers,
    names_ascending, HttpHeaders,
};
use crate::message::{copy_bytes, is_status_code, Response, ResponseView, StatusCode};
use crate::text::{decimal, decimal_text};
use vstd::prelude::*;

verus! {

/// Creates the cache table unless it is there already.
pub const CREATE_SQL: &'static str = "
CREATE TABLE IF NOT EXISTS cache (
 method TEXT,
 url TEXT,
 content BLOB,
 headers TEXT,
 status_code INTEGER,
 last_update TEXT DEFAULT CURRENT_TIMESTAMP NOT NULL,
 PRIMARY KEY (method, url)
)";

/// Writes one row, replacing the row of the same key and refreshing its
/// `last_update`.
pub const UPSERT_SQL: &'static str = "
INSERT INTO cache (method, url, content, headers, status_code) VALUES (:method, :url, :content, :headers, :status_code)
 ON CONFLICT(method, url) DO UPDATE SET
 content=excluded.content,
 headers=excluded.headers,
 status_code=excluded.status_code,
 last_update=CURRENT_TIMESTAMP";

/// The freshness clause of the read statement: empty when `ttl` is zero.
pub open spec fn ttl_clause(ttl: nat) -> Seq<char> {
    if ttl > 0 {
        " AND last_update > datetime(CURRENT_TIMESTAMP, '-"@ + decimal(ttl) + " seconds')"@
    } else {
        Seq::empty()
    }
}

/// The status clause of the read statement.
pub open spec fn status_clause(client_errors: bool, server_errors: bool) -> Seq<char> {
    " AND (status_code < 400"@ + (if client_errors {
        " OR status_code BETWEEN 400 AND 499"@
    } else {
        Seq::empty()
    }) + (if server_errors {
        " OR status_code BETWEEN 500 AND 599"@
    } else {
        Seq::empty()
    }) + ")"@
}

/// The text of the read statement for a policy. Its parameters are `:method`
/// and `:url`.
pub open spec fn select_sql(client_errors: bool, server_errors: bool, ttl: nat) -> Seq<char> {
    "SELECT * FROM cache WHERE method = :method AND url = :url"@ + ttl_clause(ttl) + status_clause(
        client_errors,
        server_errors,
    )
}

/// Whether a status code passes the status filter of a policy.
pub open spec fn status_admitted(client_errors: bool, server_errors: bool, status: int) -> bool {
    ||| status < 400
    ||| client_errors && 400 <= status <= 499
    ||| server_errors && 500 <= status <= 599
}

/// Whether a row written at `last_update` is fresh at `now` (both in seconds
/// of one clock) under a time to live of `ttl` seconds, zero meaning that rows
/// never expire.
pub open spec fn fresh(ttl: nat, last_update: int, now: int) -> bool {
    ttl == 0 || now - last_update < ttl
}

/// The read policy of the cache: which stored rows may be served.
///
/// It filters reads only; every fetched response is written whatever the
/// policy says.
#[derive(Debug)]
pub struct CacheSettings {
    client_errors: bool,
    server_errors: bool,
    ttl: u16,
    sql: String,
}

impl CacheSettings {
    #[verifier::type_invariant]
    spec fn sql_matches_policy(self) -> bool {
        self.sql@ == select_sql(self.client_errors, self.server_errors, self.ttl as nat)
    }

    /// Whether rows with a status from 400 to 499 may be served.
    pub closed spec fn allows_client_errors(self) -> bool {
        self.client_errors
    }

    /// Whether rows with a status from 500 to 599 may be served.
    pub closed spec fn allows_server_errors(self) -> bool {
        self.server_errors
    }

    /// The time to live in seconds; zero switches the freshness check off.
    pub closed spec fn ttl_seconds(self) -> nat {
        self.ttl as nat
    }

    /// Whether this policy lets a row with the given status and time of
    /// writing be served at `now`.
    pub open spec fn admits_spec(self, status: int, last_update: int, now: int) -> bool {
        &&& status_admitted(self.allows_client_errors(), self.allows_server_errors(), status)
        &&& fresh(self.ttl_seconds(), last_update, now)
    }

    /// Builds the policy and the text of its read statement.
    pub fn new(client_errors: bool, server_errors: bool, ttl: u16) -> (settings: Self)
        ensures
            settings.allows_client_errors() == client_errors,
            settings.allows_server_errors() == server_errors,
            settings.ttl_seconds() == ttl,
    {
        let mut sql: String = String::from_str(
            "SELECT * FROM cache WHERE method = :method AND url = :url",
        );
        if ttl > 0 {
            sql.append(" AND last_update > datetime(CURRENT_TIMESTAMP, '-");
            let seconds: String = decimal_text(ttl);
            sql.append(seconds.as_str());
            sql.append(" seconds')");
        }
        sql.append(" AND (status_code < 400");
        if client_errors {
            sql.append(" OR status_code BETWEEN 400 AND 499");
        }
        if server_errors {
            sql.append(" OR status_code BETWEEN 500 AND 599");
        }
        sql.append(")");
        assert(sql@ =~= select_sql(client_errors, server_errors, ttl as nat));
        CacheSettings { client_errors, server_errors, ttl, sql }
    }

    /// The text of the read statement of this policy.
    pub fn to_sql(&self) -> (sql: &str)
        ensures
            sql@ == select_sql(
                self.allows_client_errors(),
                self.allows_server_errors(),
                self.ttl_seconds(),
            ),
    {
        proof {
            use_type_invariant(self);
        }
        self.sql.as_str()
    }

    /// Whether rows with a status from 400 to 499 may be served.
    pub fn client_errors(&self) -> (allowed: bool)
        ensures
            allowed == self.allows_client_errors(),
    {
        self.client_errors
    }

    /// Whether rows with a status from 500 to 599 may be served.
    pub fn server_errors(&self) -> (allowed: bool)
        ensures
            allowed == self.allows_server_errors(),
    {
        self.server_errors
    }

    /// The time to live in seconds.
    pub fn ttl(&self) -> (seconds: u16)
        ensures
            seconds == self.ttl_seconds(),
    {
        self.ttl
    }

    /// Decides whether a row with the given status, written at `last_update`,
    /// may be served at `now`.
    pub fn admits(&self, status: u16, last_update: i64, now: i64) -> (ok: bool)
        ensures
            ok == self.admits_spec(status as int, last_update as int, now as int),
    {
        let status_ok: bool = status < 400 || (self.client_errors && 400 <= status && status
            <= 499) || (self.server_errors && 500 <= status && status <= 599);
        let age: i128 = now as i128 - last_update as i128;
        let fresh_ok: bool = self.ttl == 0 || age < self.ttl as i128;
        status_ok && fresh_ok
    }
}

impl Clone for CacheSettings {
    fn clone(&self) -> (copy: Self)
        ensures
            copy.allows_client_errors() == self.allows_client_errors(),
            copy.allows_server_errors() == self.allows_server_errors(),
            copy.ttl_seconds() == self.ttl_seconds(),
    {
        proof {
            use_type_invariant(self);
        }
        CacheSettings {
            client_errors: self.client_errors,
            server_errors: self.server_errors,
            ttl: self.ttl,
            sql: self.sql.clone(),
        }
    }
}

/// A row of the cache table as the store hands it over, the time of its last
/// write in seconds of the clock that also gives `now`.
#[derive(Debug, PartialEq, Eq)]
pub struct Row {
    pub method: String,
    pub url: String,
    pub content: Vec<u8>,
    pub headers: String,
    pub status_code: i64,
    pub last_update: i64,
}

/// A row as mathematical values.
pub struct RowView {
    pub method: Seq<char>,
    pub url: Seq<char>,
    pub content: Seq<u8>,
    pub headers: Seq<char>,
    pub status_code: i64,
    pub last_update: i64,
}

impl View for Row {
    type V = RowView;

    open spec fn view(&self) -> RowView {
        RowView {
            method: self.method@,
            url: self.url@,
            content: self.content@,
            headers: self.headers@,
            status_code: self.status_code,
            last_update: self.last_update,
        }
    }
}

/// The values that the write statement binds to its parameters, each under
/// the name of its column.
#[derive(Debug, PartialEq, Eq)]
pub struct Upsert {
    pub method: String,
    pub url: String,
    pub content: Vec<u8>,
    /// The headers as a JSON object.
    pub headers: String,
    /// The status code as a decimal numeral.
    pub status_code: String,
}

/// The parameters of a write as mathematical values.
pub struct UpsertView {
    pub method: Seq<char>,
    pub url: Seq<char>,
    pub content: Seq<u8>,
    pub headers: Seq<char>,
    pub status_code: Seq<char>,
}

impl View for Upsert {
    type V = UpsertView;

    open spec fn view(&self) -> UpsertView {
        UpsertView {
            method: self.method@,
            url: self.url@,
            content: self.content@,
            headers: self.headers@,
            status_code: self.status_code@,
        }
    }
}

/// Why the cache could not be read or written.
#[derive(Debug, Clone, Copy, PartialEq, Eq, Structural)]
pub enum CacheError {
    /// No connection could be had, or a statement failed.
    Unavailable,
    /// A stored row holds a status that is no status code.
    Status,
    /// A stored row holds headers that cannot be read.
    Headers,
    /// The headers of a response could not be written as JSON.
    Unwritable,
    /// The store or the origin answered what had not been asked.
    OutOfTurn,
}

impl CacheError {
    /// The status of the response that reports this error.
    pub fn status_code(&self) -> (status: StatusCode)
        ensures
            status@ == 500,
    {
        StatusCode::internal_server_error()
    }
}

/// A captured response: the last one that the origin gave for a method and a
/// URL.
#[derive(Debug, PartialEq, Eq)]
pub struct Entry {
    pub method: String,
    pub url: String,
    pub content: Vec<u8>,
    pub headers: HttpHeaders,
    pub status_code: StatusCode,
    pub last_update: i64,
}

/// An entry as mathematical values.
pub struct EntryView {
    pub method: Seq<char>,
    pub url: Seq<char>,
    pub content: Seq<u8>,
    pub headers: Seq<(Seq<char>, Seq<Seq<char>>)>,
    pub status_code: u16,
    pub last_update: i64,
}

impl View for Entry {
    type V = EntryView;

    open spec fn view(&self) -> EntryView {
        EntryView {
            method: self.method@,
            url: self.url@,
            content: self.content@,
            headers: self.headers@,
            status_code: self.status_code@,
            last_update: self.last_update,
        }
    }
}

/// The response that serves an entry: its status, every stored header value
/// on a line of its own, and its body.
pub open spec fn served(entry: EntryView) -> ResponseView {
    ResponseView {
        status_code: entry.status_code,
        headers: flattened(entry.headers),
        body: entry.content,
    }
}

/// The entry that captures a response of the origin for a method and a URL at
/// `now`: the status and body as received, the headers without those that are
/// not relayed.
pub open spec fn captured(
    method: Seq<char>,
    url: Seq<char>,
    response: ResponseView,
    now: i64,
) -> EntryView {
    EntryView {
        method: method,
        url: url,
        content: response.body,
        headers: grouped(kept(response.headers)),
        status_code: response.status_code,
        last_update: now,
    }
}

/// Whether `r` is what reading `row` gives, where `headers` is what reading
/// its stored headers gave.
pub open spec fn reads_row_with(
    r: Result<Entry, CacheError>,
    row: RowView,
    headers: Option<HttpHeaders>,
) -> bool {
    if !is_status_code(row.status_code as int) {
        r == Err::<Entry, CacheError>(CacheError::Status)
    } else {
        match headers {
            None => r == Err::<Entry, CacheError>(CacheError::Headers),
            Some(headers) => r matches Ok(entry) && entry@ == (EntryView {
                method: row.method,
                url: row.url,
                content: row.content,
                headers: headers@,
                status_code: row.status_code as u16,
                last_update: row.last_update,
            }),
        }
    }
}

/// Whether `r` is what reading `row` gives: an entry with the fields of the
/// row, its headers read from their JSON form with the names in ascending
/// order, unless the status is no status code or the headers cannot be read.
pub open spec fn reads_row(r: Result<Entry, CacheError>, row: RowView) -> bool {
    if !is_status_code(row.status_code as int) {
        r == Err::<Entry, CacheError>(CacheError::Status)
    } else {
        match headers_of_json(row.headers) {
            None => r == Err::<Entry, CacheError>(CacheError::Headers),
            Some(map) => r matches Ok(entry) && entry.headers.as_map() == map
                && names_ascending(entry.headers@) && entry.method@ == row.method
                && entry.url@ == row.url && entry.content@ == row.content && entry.status_code@
                == row.status_code && entry.last_update == row.last_update,
        }
    }
}

/// The parameters that write `entry` with its headers in the JSON form
/// `headers`.
pub open spec fn upsert_of(entry: EntryView, headers: Seq<char>) -> UpsertView {
    UpsertView {
        method: entry.method,
        url: entry.url,
        content: entry.content,
        headers: headers,
        status_code: decimal(entry.status_code as nat),
    }
}

/// Whether `r` holds the parameters that write `entry`, where `headers` is
/// what writing its headers as JSON gave.
pub open spec fn writes_entry_with(
    r: Option<Upsert>,
    entry: EntryView,
    headers: Option<String>,
) -> bool {
    match headers {
        None => r is None,
        Some(text) => r matches Some(upsert) && upsert@ == upsert_of(entry, text@),
    }
}

/// Whether `r` holds the parameters that write `entry`: its fields, its
/// headers as the JSON object that reads back as the same headers, and its
/// status as a decimal numeral; or nothing where the headers cannot be
/// written.
pub open spec fn writes_entry(r: Option<Upsert>, entry: EntryView) -> bool {
    match json_of_headers(as_map(entry.headers)) {
        None => r is None,
        Some(text) => {
            &&& r matches Some(upsert)
            &&& upsert@ == upsert_of(entry, text)
            &&& headers_of_json(text) == Some(as_map(entry.headers))
        },
    }
}

impl Entry {
    /// Captures a response of the origin for a method and a URL: status and
    /// body as received, the headers grouped by name without those that are
    /// not relayed.
    pub fn capture(method: String, url: String, response: Response, now: i64) -> (entry: Entry)
        ensures
            entry@ == captured(method@, url@, response@, now),
    {
        let Response { status_code, headers, body } = response;
        let relayed: Vec<(String, String)> = kept_headers(&headers);
        Entry {
            method,
            url,
            content: body,
            headers: HttpHeaders::from_pairs(&relayed),
            status_code,
            last_update: now,
        }
    }

    /// Reads an entry from a row whose stored headers have been read already.
    pub fn from_row_with(row: Row, headers: Option<HttpHeaders>) -> (r: Result<Entry, CacheError>)
        ensures
            reads_row_with(r, row@, headers),
    {
        let Row { method, url, content, headers: _, status_code, last_update } = row;
        match StatusCode::from_i64(status_code) {
            None => Err(CacheError::Status),
            Some(status_code) => match headers {
                None => Err(CacheError::Headers),
                Some(headers) => Ok(
                    Entry { method, url, content, headers, status_code, last_update },
                ),
            },
        }
    }

    /// Reads an entry from a row of the cache table.
    pub fn try_from(row: Row) -> (r: Result<Entry, CacheError>)
        ensures
            reads_row(r, row@),
    {
        let headers: Option<HttpHeaders> = HttpHeaders::from_json(row.headers.as_str());
        Entry::from_row_with(row, headers)
    }

    /// The parameters that write this entry, given its headers as JSON.
    pub fn upsert_with(&self, headers: Option<String>) -> (r: Option<Upsert>)
        ensures
            writes_entry_with(r, self@, headers),
    {
        match headers {
            None => None,
            Some(text) => Some(
                Upsert {
                    method: self.method.clone(),
                    url: self.url.clone(),
                    content: copy_bytes(&self.content),
                    headers: text,
                    status_code: decimal_text(self.status_code.as_u16()),
                },
            ),
        }
    }

    /// The parameters that write this entry. `None` where its headers cannot
    /// be written.
    pub fn upsert(&self) -> (r: Option<Upsert>)
        ensures
            writes_entry(r, self@),
    {
        let headers: Option<String> = self.headers.to_json();
        self.upsert_with(headers)
    }

    /// The response that serves this entry.
    pub fn into_response(&self) -> (response: Response)
        ensures
            response@ == served(self@),
    {
        Response {
            status_code: self.status_code,
            headers: self.headers.lines(),
            body: copy_bytes(&self.content),
        }
    }
}

} // verus!
