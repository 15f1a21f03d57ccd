//! Restoring `scheme://` in a target that was embedded in a request path.
//!
//! Clients collapse repeated slashes in a path, so `https://example.com`
//! arrives as `https:/example.com`. The rewrite below puts exactly two
//! slashes behind the scheme again, however many arrived.

use crate::text::chars_of;
use vstd::prelude::*;

verus! {

/// A character that may start a scheme: a lower-case ASCII letter.
pub open spec fn is_scheme_start(c: char) -> bool {
    'a' as u32 <= c as u32 && c as u32 <= 'z' as u32
}

/// A character that may continue a scheme: a lower-case ASCII letter, a
/// digit, `+`, `-` or `.`.
pub open spec fn is_scheme_char(c: char) -> bool {
    is_scheme_start(c) || ('0' as u32 <= c as u32 && c as u32 <= '9' as u32) || c == '+' || c
        == '-' || c == '.'
}

/// A scheme: a start character followed by any number of scheme characters.
pub open spec fn is_scheme(t: Seq<char>) -> bool {
    &&& t.len() > 0
    &&& is_scheme_start(t[0])
    &&& forall|i: int| 0 <= i < t.len() ==> is_scheme_char(#[trigger] t[i])
}

/// `k` slashes.
pub open spec fn slashes(k: nat) -> Seq<char> {
    Seq::new(k, |i: int| '/')
}

/// The first index from `i` on at which `s` holds no scheme character.
pub open spec fn scheme_run_end(s: Seq<char>, i: int) -> int
    decreases s.len() - i,
{
    if 0 <= i < s.len() && is_scheme_char(s[i]) {
        scheme_run_end(s, i + 1)
    } else {
        i
    }
}

/// The first index from `i` on at which `s` holds no slash.
pub open spec fn slash_run_end(s: Seq<char>, i: int) -> int
    decreases s.len() - i,
{
    if 0 <= i < s.len() && s[i] == '/' {
        slash_run_end(s, i + 1)
    } else {
        i
    }
}

/// The target with `scheme://` restored.
///
/// Where `s` is an optional slash, a scheme, a colon and one or more slashes,
/// followed by anything, the result is the scheme, `://` and what followed the
/// slashes. Any other `s` is the result itself.
pub open spec fn denormalized(s: Seq<char>) -> Seq<char> {
    let start: int = if s.len() > 0 && s[0] == '/' {
        1
    } else {
        0
    };
    if start < s.len() && is_scheme_start(s[start]) {
        let colon: int = scheme_run_end(s, start + 1);
        if colon + 1 < s.len() && s[colon] == ':' && s[colon + 1] == '/' {
            let rest: int = slash_run_end(s, colon + 2);
            s.subrange(start, colon + 1) + seq!['/', '/'] + s.subrange(rest, s.len() as int)
        } else {
            s
        }
    } else {
        s
    }
}

/// The text that names the target: the path tail, and the query string behind
/// a `?` where there is one.
pub open spec fn assembled(url_no_query: Seq<char>, query_string: Seq<char>) -> Seq<char> {
    if query_string.len() == 0 {
        url_no_query
    } else {
        url_no_query + seq!['?'] + query_string
    }
}

fn scheme_start(c: char) -> (b: bool)
    ensures
        b == is_scheme_start(c),
{
    let code: u32 = c as u32;
    97 <= code && code <= 122
}

fn scheme_char(c: char) -> (b: bool)
    ensures
        b == is_scheme_char(c),
{
    let code: u32 = c as u32;
    (97 <= code && code <= 122) || (48 <= code && code <= 57) || c == '+' || c == '-' || c == '.'
}

/// Puts the query string back behind the path tail of a request.
pub fn assemble(url_no_query: &str, query_string: &str) -> (uri: String)
    ensures
        uri@ == assembled(url_no_query@, query_string@),
{
    let mut uri: String = String::from_str(url_no_query);
    if !query_string.is_empty() {
        proof {
            reveal_strlit("?");
        }
        uri.append("?");
        uri.append(query_string);
        assert(uri@ =~= url_no_query@ + seq!['?'] + query_string@);
    }
    uri
}

/// Restores `scheme://` at the head of a target taken from a request path.
pub fn denormalize(uri: &str) -> (r: String)
    ensures
        r@ == denormalized(uri@),
{
    let chars: Vec<char> = chars_of(uri);
    let n: usize = chars.len();
    let start: usize = if n > 0 && chars[0] == '/' {
        1
    } else {
        0
    };
    if start >= n || !scheme_start(chars[start]) {
        return String::from_str(uri);
    }
    let mut colon: usize = start + 1;
    while colon < n && scheme_char(chars[colon])
        invariant
            start < colon <= n,
            n == chars@.len(),
            scheme_run_end(chars@, colon as int) == scheme_run_end(chars@, start + 1),
        decreases n - colon,
    {
        colon += 1;
    }
    if n - colon < 2 || chars[colon] != ':' || chars[colon + 1] != '/' {
        return String::from_str(uri);
    }
    let mut rest: usize = colon + 2;
    while rest < n && chars[rest] == '/'
        invariant
            colon + 2 <= rest <= n,
            n == chars@.len(),
            slash_run_end(chars@, rest as int) == slash_run_end(chars@, colon + 2),
        decreases n - rest,
    {
        rest += 1;
    }
    let mut r: String = String::from_str(uri.substring_char(start, colon + 1));
    proof {
        reveal_strlit("//");
    }
    r.append("//");
    r.append(uri.substring_char(rest, n));
    assert(r@ =~= denormalized(uri@));
    r
}

proof fn lemma_scheme_run(s: Seq<char>, i: int, end: int)
    requires
        0 <= i <= end <= s.len(),
        forall|j: int| i <= j < end ==> is_scheme_char(#[trigger] s[j]),
        end == s.len() || !is_scheme_char(s[end]),
    ensures
        scheme_run_end(s, i) == end,
    decreases end - i,
{
    if i < end {
        lemma_scheme_run(s, i + 1, end);
    }
}

proof fn lemma_slash_run(s: Seq<char>, i: int, end: int)
    requires
        0 <= i <= end <= s.len(),
        forall|j: int| i <= j < end ==> #[trigger] s[j] == '/',
        end == s.len() || s[end] != '/',
    ensures
        slash_run_end(s, i) == end,
    decreases end - i,
{
    if i < end {
        lemma_slash_run(s, i + 1, end);
    }
}

proof fn lemma_scheme_run_bounds(s: Seq<char>, i: int)
    requires
        0 <= i <= s.len(),
    ensures
        i <= scheme_run_end(s, i) <= s.len(),
        forall|j: int| i <= j < scheme_run_end(s, i) ==> is_scheme_char(#[trigger] s[j]),
        scheme_run_end(s, i) == s.len() || !is_scheme_char(s[scheme_run_end(s, i)]),
    decreases s.len() - i,
{
    if i < s.len() && is_scheme_char(s[i]) {
        lemma_scheme_run_bounds(s, i + 1);
    }
}

proof fn lemma_slash_run_bounds(s: Seq<char>, i: int)
    requires
        0 <= i <= s.len(),
    ensures
        i <= slash_run_end(s, i) <= s.len(),
        forall|j: int| i <= j < slash_run_end(s, i) ==> #[trigger] s[j] == '/',
        slash_run_end(s, i) == s.len() || s[slash_run_end(s, i)] != '/',
    decreases s.len() - i,
{
    if i < s.len() && s[i] == '/' {
        lemma_slash_run_bounds(s, i + 1);
    }
}

/// An optional leading slash.
pub open spec fn lead(leading_slash: bool) -> Seq<char> {
    if leading_slash {
        seq!['/']
    } else {
        Seq::empty()
    }
}

/// Whether `s` is a target in path form: an optional slash, `scheme`, a colon,
/// `k` slashes with `k` at least one, and `rest`, which is what follows the
/// slashes and so does not begin with one.
pub open spec fn in_path_form(
    s: Seq<char>,
    leading_slash: bool,
    scheme: Seq<char>,
    k: nat,
    rest: Seq<char>,
) -> bool {
    &&& is_scheme(scheme)
    &&& k >= 1
    &&& rest.len() == 0 || rest[0] != '/'
    &&& s == lead(leading_slash) + scheme + seq![':'] + slashes(k) + rest
}

/// A target in path form denormalizes to the URL it stands for: with or
/// without a leading slash, and with any positive number of slashes behind the
/// colon, the result is the scheme, `://` and the rest.
pub proof fn lemma_denormalize_path_form(
    leading_slash: bool,
    scheme: Seq<char>,
    k: nat,
    rest: Seq<char>,
)
    requires
        is_scheme(scheme),
        k >= 1,
        rest.len() == 0 || rest[0] != '/',
    ensures
        denormalized(lead(leading_slash) + scheme + seq![':'] + slashes(k) + rest) == scheme
            + seq![':', '/', '/'] + rest,
{
    let s: Seq<char> = lead(leading_slash) + scheme + seq![':'] + slashes(k) + rest;
    let start: int = lead(leading_slash).len() as int;
    let colon: int = start + scheme.len();
    let tail: int = colon + 1 + k;
    assert(s.len() == tail + rest.len());
    assert forall|j: int| start <= j < colon implies is_scheme_char(#[trigger] s[j]) by {
        assert(s[j] == scheme[j - start]);
    }
    assert(s[start] == scheme[0]);
    assert(s[colon] == ':');
    assert forall|j: int| colon + 1 <= j < tail implies #[trigger] s[j] == '/' by {
        assert(s[j] == slashes(k)[j - colon - 1]);
    }
    if rest.len() > 0 {
        assert(s[tail] == rest[0]);
    }
    lemma_scheme_run(s, start + 1, colon);
    lemma_slash_run(s, colon + 2, tail);
    assert(s.subrange(start, colon + 1) =~= scheme + seq![':']);
    assert(s.subrange(tail, s.len() as int) =~= rest);
    assert(denormalized(s) =~= scheme + seq![':', '/', '/'] + rest);
}

/// Text that is no target in path form is left as it is.
pub proof fn lemma_denormalize_keeps_other_text(s: Seq<char>)
    requires
        forall|leading_slash: bool, scheme: Seq<char>, k: nat, rest: Seq<char>|
            !in_path_form(s, leading_slash, scheme, k, rest),
    ensures
        denormalized(s) == s,
{
    let leading_slash: bool = s.len() > 0 && s[0] == '/';
    let start: int = lead(leading_slash).len() as int;
    if start < s.len() && is_scheme_start(s[start]) {
        lemma_scheme_run_bounds(s, start + 1);
        let colon: int = scheme_run_end(s, start + 1);
        if colon + 1 < s.len() && s[colon] == ':' && s[colon + 1] == '/' {
            lemma_slash_run_bounds(s, colon + 2);
            let tail: int = slash_run_end(s, colon + 2);
            let scheme: Seq<char> = s.subrange(start, colon);
            let k: nat = (tail - colon - 1) as nat;
            let rest: Seq<char> = s.subrange(tail, s.len() as int);
            assert(is_scheme(scheme));
            assert(s =~= lead(leading_slash) + scheme + seq![':'] + slashes(k) + rest);
            assert(in_path_form(s, leading_slash, scheme, k, rest));
        }
    }
}

/// A URL that already holds `scheme://` is left as it is.
pub proof fn lemma_denormalize_keeps_url(scheme: Seq<char>, rest: Seq<char>)
    requires
        is_scheme(scheme),
        rest.len() == 0 || rest[0] != '/',
    ensures
        denormalized(scheme + seq![':', '/', '/'] + rest) == scheme + seq![':', '/', '/'] + rest,
{
    lemma_denormalize_path_form(false, scheme, 2, rest);
    assert(lead(false) + scheme + seq![':'] + slashes(2) + rest =~= scheme + seq![':', '/', '/']
        + rest);
}

/// Denormalizing twice gives what denormalizing once gives.
pub proof fn lemma_denormalize_idempotent(s: Seq<char>)
    ensures
        denormalized(denormalized(s)) == denormalized(s),
{
    let start: int = if s.len() > 0 && s[0] == '/' {
        1
    } else {
        0
    };
    if start < s.len() && is_scheme_start(s[start]) {
        lemma_scheme_run_bounds(s, start + 1);
        let colon: int = scheme_run_end(s, start + 1);
        if colon + 1 < s.len() && s[colon] == ':' && s[colon + 1] == '/' {
            lemma_slash_run_bounds(s, colon + 2);
            let tail: int = slash_run_end(s, colon + 2);
            let scheme: Seq<char> = s.subrange(start, colon);
            let rest: Seq<char> = s.subrange(tail, s.len() as int);
            assert(is_scheme(scheme));
            assert(s.subrange(start, colon + 1) =~= scheme + seq![':']);
            assert(denormalized(s) =~= scheme + seq![':', '/', '/'] + rest);
            lemma_denormalize_keeps_url(scheme, rest);
        }
    }
}

} // verus!
