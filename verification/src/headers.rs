//! Header lists and the header multimap that is stored with a response.
//!
//! A header list is what travels in a message: names and values in order, a
//! name as often as it has values. The multimap groups the values by name. The
//! lists that this crate reads carry lower-case names, as HTTP stacks give
//! them.

use crate::text::same_text;
use vstd::prelude::*;

verus! {

/// The first index from `i` on at which `groups` holds `name`, or the length
/// of `groups` where there is none.
pub open spec fn position_from(
    groups: Seq<(Seq<char>, Seq<Seq<char>>)>,
    name: Seq<char>,
    i: int,
) -> int
    decreases groups.len() - i,
{
    if 0 <= i < groups.len() && groups[i].0 != name {
        position_from(groups, name, i + 1)
    } else {
        i
    }
}

/// The index of the group of `name`, or the length of `groups` where the name
/// has no group.
pub open spec fn position(groups: Seq<(Seq<char>, Seq<Seq<char>>)>, name: Seq<char>) -> int {
    position_from(groups, name, 0)
}

/// No name has two groups.
pub open spec fn distinct_names(groups: Seq<(Seq<char>, Seq<Seq<char>>)>) -> bool {
    forall|i: int, j: int|
        0 <= i < j < groups.len() ==> (#[trigger] groups[i]).0 != (#[trigger] groups[j]).0
}

/// Whether `a` comes before `b` in the order of strings: character by
/// character from the front, and a proper prefix before what it starts.
pub open spec fn text_before(a: Seq<char>, b: Seq<char>) -> bool
    decreases a.len(),
{
    if b.len() == 0 {
        false
    } else if a.len() == 0 {
        true
    } else if a[0] != b[0] {
        (a[0] as u32) < (b[0] as u32)
    } else {
        text_before(a.drop_first(), b.drop_first())
    }
}

/// The names stand in ascending order.
pub open spec fn names_ascending(groups: Seq<(Seq<char>, Seq<Seq<char>>)>) -> bool {
    forall|i: int, j: int|
        0 <= i < j < groups.len() ==> text_before(
            (#[trigger] groups[i]).0,
            (#[trigger] groups[j]).0,
        )
}

/// The values of `name`, in order; none where the name has no group.
pub open spec fn values_of(groups: Seq<(Seq<char>, Seq<Seq<char>>)>, name: Seq<char>) -> Seq<
    Seq<char>,
> {
    let i: int = position(groups, name);
    if i < groups.len() {
        groups[i].1
    } else {
        Seq::empty()
    }
}

/// `groups` with one more value for `name`: behind the values that the name
/// has, or in a new group at the end.
pub open spec fn with_value(
    groups: Seq<(Seq<char>, Seq<Seq<char>>)>,
    name: Seq<char>,
    value: Seq<char>,
) -> Seq<(Seq<char>, Seq<Seq<char>>)> {
    let i: int = position(groups, name);
    if i < groups.len() {
        groups.update(i, (name, groups[i].1.push(value)))
    } else {
        groups.push((name, seq![value]))
    }
}

/// The multimap of a header list: the names in the order in which they first
/// occur, each with its values in the order of the list.
pub open spec fn grouped(lines: Seq<(Seq<char>, Seq<char>)>) -> Seq<(Seq<char>, Seq<Seq<char>>)>
    decreases lines.len(),
{
    if lines.len() == 0 {
        Seq::empty()
    } else {
        with_value(grouped(lines.drop_last()), lines.last().0, lines.last().1)
    }
}

/// One line for each value of a name.
pub open spec fn expanded(name: Seq<char>, values: Seq<Seq<char>>) -> Seq<(Seq<char>, Seq<char>)> {
    Seq::new(values.len(), |i: int| (name, values[i]))
}

/// The header list of a multimap: group after group, each value on a line of
/// its own.
pub open spec fn flattened(groups: Seq<(Seq<char>, Seq<Seq<char>>)>) -> Seq<(Seq<char>, Seq<char>)>
    decreases groups.len(),
{
    if groups.len() == 0 {
        Seq::empty()
    } else {
        flattened(groups.drop_last()) + expanded(groups.last().0, groups.last().1)
    }
}

/// The values that a header list gives to `name`, in the order of the list.
pub open spec fn values_in(lines: Seq<(Seq<char>, Seq<char>)>, name: Seq<char>) -> Seq<Seq<char>>
    decreases lines.len(),
{
    if lines.len() == 0 {
        Seq::empty()
    } else if lines.last().0 == name {
        values_in(lines.drop_last(), name).push(lines.last().1)
    } else {
        values_in(lines.drop_last(), name)
    }
}

/// The multimap as a map from each name to its values.
pub open spec fn as_map(groups: Seq<(Seq<char>, Seq<Seq<char>>)>) -> Map<
    Seq<char>,
    Seq<Seq<char>>,
> {
    Map::new(
        |name: Seq<char>| position(groups, name) < groups.len(),
        |name: Seq<char>| values_of(groups, name),
    )
}

/// A header of a response from the origin that is neither stored nor served:
/// `connection` is meant for one hop only, and `content-encoding` no longer
/// describes a body that the transport has decoded.
pub open spec fn is_hop_header(name: Seq<char>) -> bool {
    name == "connection"@ || name == "content-encoding"@
}

/// The name of the header that tells the origin which host is meant.
pub open spec fn host_name() -> Seq<char> {
    "host"@
}

/// The headers of a response from the origin that are stored and served.
pub open spec fn kept(lines: Seq<(Seq<char>, Seq<char>)>) -> Seq<(Seq<char>, Seq<char>)> {
    lines.filter(|line: (Seq<char>, Seq<char>)| !is_hop_header(line.0))
}

/// The headers of the request to the origin: every header of the client but
/// `host`, and behind them `host` with the host of the target.
pub open spec fn outbound(lines: Seq<(Seq<char>, Seq<char>)>, host: Seq<char>) -> Seq<
    (Seq<char>, Seq<char>),
> {
    lines.filter(|line: (Seq<char>, Seq<char>)| line.0 != host_name()).push((host_name(), host))
}

proof fn lemma_position_from(groups: Seq<(Seq<char>, Seq<Seq<char>>)>, name: Seq<char>, i: int)
    requires
        0 <= i <= groups.len(),
    ensures
        i <= position_from(groups, name, i) <= groups.len(),
        forall|j: int| i <= j < position_from(groups, name, i) ==> (#[trigger] groups[j]).0 != name,
        position_from(groups, name, i) < groups.len() ==> groups[position_from(
            groups,
            name,
            i,
        )].0 == name,
    decreases groups.len() - i,
{
    if i < groups.len() && groups[i].0 != name {
        lemma_position_from(groups, name, i + 1);
    }
}

/// Where the group of a name stands: at the first index that holds the name.
pub proof fn lemma_position(groups: Seq<(Seq<char>, Seq<Seq<char>>)>, name: Seq<char>)
    ensures
        0 <= position(groups, name) <= groups.len(),
        forall|j: int| 0 <= j < position(groups, name) ==> (#[trigger] groups[j]).0 != name,
        position(groups, name) < groups.len() ==> groups[position(groups, name)].0 == name,
{
    lemma_position_from(groups, name, 0);
}

proof fn lemma_position_found(groups: Seq<(Seq<char>, Seq<Seq<char>>)>, name: Seq<char>, i: int)
    requires
        0 <= i < groups.len(),
        groups[i].0 == name,
        forall|j: int| 0 <= j < i ==> (#[trigger] groups[j]).0 != name,
    ensures
        position(groups, name) == i,
{
    lemma_position(groups, name);
    let p: int = position(groups, name);
    if p < i {
        assert(groups[p].0 != name);
    } else if p > i {
        assert(groups[i].0 != name);
    }
}

proof fn lemma_position_absent(groups: Seq<(Seq<char>, Seq<Seq<char>>)>, name: Seq<char>)
    requires
        forall|j: int| 0 <= j < groups.len() ==> (#[trigger] groups[j]).0 != name,
    ensures
        position(groups, name) == groups.len(),
{
    lemma_position(groups, name);
    let p: int = position(groups, name);
    if p < groups.len() {
        assert(groups[p].0 != name);
    }
}

/// No text comes before itself.
pub proof fn lemma_text_before_irreflexive(a: Seq<char>)
    ensures
        !text_before(a, a),
    decreases a.len(),
{
    if a.len() > 0 {
        lemma_text_before_irreflexive(a.drop_first());
    }
}

/// Names in ascending order are distinct.
pub proof fn lemma_ascending_distinct(groups: Seq<(Seq<char>, Seq<Seq<char>>)>)
    requires
        names_ascending(groups),
    ensures
        distinct_names(groups),
{
    assert forall|i: int, j: int| 0 <= i < j < groups.len() implies (#[trigger] groups[i]).0 != (
    #[trigger] groups[j]).0 by {
        lemma_text_before_irreflexive(groups[i].0);
        assert(text_before(groups[i].0, groups[j].0));
    }
}

/// A value more leaves the names distinct.
pub proof fn lemma_with_value_distinct(
    groups: Seq<(Seq<char>, Seq<Seq<char>>)>,
    name: Seq<char>,
    value: Seq<char>,
)
    requires
        distinct_names(groups),
    ensures
        distinct_names(with_value(groups, name, value)),
{
    lemma_position(groups, name);
    let next = with_value(groups, name, value);
    let p: int = position(groups, name);
    assert forall|i: int, j: int| 0 <= i < j < next.len() implies (#[trigger] next[i]).0 != (
    #[trigger] next[j]).0 by {
        if p < groups.len() {
            assert(next[i].0 == groups[i].0);
            assert(next[j].0 == groups[j].0);
        } else {
            if j < groups.len() {
                assert(next[i] == groups[i]);
                assert(next[j] == groups[j]);
            } else {
                assert(next[i] == groups[i]);
                assert(groups[i].0 != name);
            }
        }
    }
}

/// The multimap of a header list has no name twice.
pub proof fn lemma_grouped_distinct(lines: Seq<(Seq<char>, Seq<char>)>)
    ensures
        distinct_names(grouped(lines)),
    decreases lines.len(),
{
    if lines.len() > 0 {
        lemma_grouped_distinct(lines.drop_last());
        lemma_with_value_distinct(grouped(lines.drop_last()), lines.last().0, lines.last().1);
    }
}

/// Grouping keeps, for every name, the values of the list in their order.
pub proof fn lemma_grouped_values(lines: Seq<(Seq<char>, Seq<char>)>, name: Seq<char>)
    ensures
        values_of(grouped(lines), name) == values_in(lines, name),
    decreases lines.len(),
{
    if lines.len() > 0 {
        let front = grouped(lines.drop_last());
        let added: Seq<char> = lines.last().0;
        let value: Seq<char> = lines.last().1;
        let next = with_value(front, added, value);
        lemma_grouped_values(lines.drop_last(), name);
        lemma_position(front, name);
        lemma_position(front, added);
        let p: int = position(front, name);
        let q: int = position(front, added);
        if p < front.len() {
            assert forall|j: int| 0 <= j < p implies (#[trigger] next[j]).0 != name by {
                assert(next[j].0 == front[j].0);
            }
            assert(next[p].0 == name);
            lemma_position_found(next, name, p);
            if added == name {
                assert(next[p].1 == front[p].1.push(value));
            } else {
                assert(next[p] == front[p]);
            }
        } else if added == name {
            assert forall|j: int| 0 <= j < p implies (#[trigger] next[j]).0 != name by {
                assert(next[j] == front[j]);
            }
            lemma_position_found(next, name, p);
            assert(next[p].1 =~= Seq::<Seq<char>>::empty().push(value));
        } else {
            assert forall|j: int| 0 <= j < next.len() implies (#[trigger] next[j]).0 != name by {
                if j < front.len() {
                    assert(next[j].0 == front[j].0);
                }
            }
            lemma_position_absent(next, name);
        }
    }
}

proof fn lemma_values_in_concat(
    a: Seq<(Seq<char>, Seq<char>)>,
    b: Seq<(Seq<char>, Seq<char>)>,
    name: Seq<char>,
)
    ensures
        values_in(a + b, name) == values_in(a, name) + values_in(b, name),
    decreases b.len(),
{
    if b.len() == 0 {
        assert(a + b =~= a);
        assert(values_in(a, name) + values_in(b, name) =~= values_in(a, name));
    } else {
        lemma_values_in_concat(a, b.drop_last(), name);
        assert((a + b).drop_last() =~= a + b.drop_last());
        assert((a + b).last() == b.last());
        if b.last().0 == name {
            assert(values_in(a + b, name) =~= values_in(a, name) + values_in(b, name));
        }
    }
}

proof fn lemma_values_in_expanded(owner: Seq<char>, values: Seq<Seq<char>>, name: Seq<char>)
    ensures
        values_in(expanded(owner, values), name) == if owner == name {
            values
        } else {
            Seq::<Seq<char>>::empty()
        },
    decreases values.len(),
{
    if values.len() == 0 {
        assert(values =~= Seq::<Seq<char>>::empty());
    } else {
        lemma_values_in_expanded(owner, values.drop_last(), name);
        assert(expanded(owner, values).drop_last() =~= expanded(owner, values.drop_last()));
        assert(expanded(owner, values).last() == (owner, values.last()));
        if owner == name {
            assert(values.drop_last().push(values.last()) =~= values);
        }
    }
}

/// The header list of a multimap gives every name the values that the
/// multimap holds for it, in their order.
pub proof fn lemma_flattened_values(groups: Seq<(Seq<char>, Seq<Seq<char>>)>, name: Seq<char>)
    requires
        distinct_names(groups),
    ensures
        values_in(flattened(groups), name) == values_of(groups, name),
    decreases groups.len(),
{
    if groups.len() > 0 {
        let front = groups.drop_last();
        let last = groups.last();
        assert forall|i: int, j: int| 0 <= i < j < front.len() implies (#[trigger] front[i]).0 != (
        #[trigger] front[j]).0 by {
            assert(front[i] == groups[i]);
            assert(front[j] == groups[j]);
        }
        lemma_flattened_values(front, name);
        lemma_values_in_concat(flattened(front), expanded(last.0, last.1), name);
        lemma_values_in_expanded(last.0, last.1, name);
        lemma_position(front, name);
        let p: int = position(front, name);
        if last.0 == name {
            assert forall|j: int| 0 <= j < front.len() implies (#[trigger] groups[j]).0 != name by {
                assert(groups[j].0 != groups[groups.len() - 1].0);
            }
            lemma_position_found(groups, name, groups.len() - 1);
            if p < front.len() {
                assert(front[p] == groups[p]);
            }
            assert(values_of(front, name) =~= Seq::<Seq<char>>::empty());
            assert(values_in(flattened(groups), name) =~= last.1);
        } else if p < front.len() {
            assert forall|j: int| 0 <= j < p implies (#[trigger] groups[j]).0 != name by {
                assert(groups[j] == front[j]);
            }
            assert(groups[p] == front[p]);
            lemma_position_found(groups, name, p);
            assert(values_in(flattened(groups), name) =~= values_of(front, name));
        } else {
            assert forall|j: int| 0 <= j < groups.len() implies (#[trigger] groups[j]).0
                != name by {
                if j < front.len() {
                    assert(groups[j] == front[j]);
                }
            }
            lemma_position_absent(groups, name);
            assert(values_in(flattened(groups), name) =~= Seq::<Seq<char>>::empty());
        }
    } else {
        lemma_position(groups, name);
    }
}

/// Two multimaps that are the same map hold the same values for every name.
pub proof fn lemma_same_map_same_values(
    a: Seq<(Seq<char>, Seq<Seq<char>>)>,
    b: Seq<(Seq<char>, Seq<Seq<char>>)>,
    name: Seq<char>,
)
    requires
        as_map(a) == as_map(b),
    ensures
        values_of(a, name) == values_of(b, name),
{
    assert(as_map(a).dom().contains(name) == (position(a, name) < a.len()));
    assert(as_map(b).dom().contains(name) == (position(b, name) < b.len()));
    if position(a, name) < a.len() {
        assert(as_map(a)[name] == values_of(a, name));
        assert(as_map(b)[name] == values_of(b, name));
    }
}

/// A header list that is grouped and flattened again gives every name the
/// values it had, in their order: nothing is lost of a header that comes more
/// than once.
pub proof fn lemma_grouping_keeps_values(lines: Seq<(Seq<char>, Seq<char>)>, name: Seq<char>)
    ensures
        values_in(flattened(grouped(lines)), name) == values_in(lines, name),
{
    lemma_grouped_distinct(lines);
    lemma_flattened_values(grouped(lines), name);
    lemma_grouped_values(lines, name);
}

/// What `serde_json::from_str` makes of a text that is read as a JSON object
/// from names to lists of strings: the map it returns, or `None` where it
/// returns an error.
pub uninterp spec fn headers_of_json(text: Seq<char>) -> Option<Map<Seq<char>, Seq<Seq<char>>>>;

/// Calls `serde_json::from_str` for a `BTreeMap<String, Vec<String>>` and
/// hands out the map's entries in the order in which the map gives them. The
/// contract gives the outcome its name, `headers_of_json`, and says that the
/// names come in ascending order, as the keys of a `BTreeMap` do: in the order
/// of `String`, which compares byte by byte and so character by character.
#[verifier::external_body]
fn groups_from_json(text: &str) -> (r: Option<Vec<(String, Vec<String>)>>)
    ensures
        match r {
            Some(groups) => names_ascending(groups.deep_view()) && headers_of_json(text@) == Some(
                as_map(groups.deep_view()),
            ),
            None => headers_of_json(text@) is None,
        },
{
    match serde_json::from_str::<std::collections::BTreeMap<String, Vec<String>>>(text) {
        Ok(map) => Some(map.into_iter().collect()),
        Err(_) => None,
    }
}

/// What `serde_json::to_string` makes of a map from names to lists of
/// strings: the JSON text it returns, or `None` where it returns an error.
pub uninterp spec fn json_of_headers(headers: Map<Seq<char>, Seq<Seq<char>>>) -> Option<Seq<char>>;

/// Calls `serde_json::to_string` on the groups as a `BTreeMap` from names to
/// lists of strings. The contract gives the outcome its name,
/// `json_of_headers`, and claims that a text that the call gives reads back as
/// the same map: serde_json writes every string so that it reads it back
/// unchanged. It does not claim that the call gives a text.
#[verifier::external_body]
fn groups_to_json(groups: &Vec<(String, Vec<String>)>) -> (r: Option<String>)
    requires
        distinct_names(groups.deep_view()),
    ensures
        match r {
            Some(text) => json_of_headers(as_map(groups.deep_view())) == Some(text@)
                && headers_of_json(text@) == Some(as_map(groups.deep_view())),
            None => json_of_headers(as_map(groups.deep_view())) is None,
        },
{
    let map: std::collections::BTreeMap<&String, &Vec<String>> = groups.iter().map(
        |group| (&group.0, &group.1),
    ).collect();
    serde_json::to_string(&map).ok()
}

fn same_name(a: &String, b: &String) -> (same: bool)
    ensures
        same == (a@ == b@),
{
    *a == *b
}

fn find_group(entries: &Vec<(String, Vec<String>)>, name: &String) -> (i: usize)
    ensures
        i as int == position(entries.deep_view(), name@),
        i <= entries.len(),
{
    let mut i: usize = 0;
    while i < entries.len() && !same_name(&entries[i].0, name)
        invariant
            i <= entries.len(),
            forall|j: int| 0 <= j < i ==> (#[trigger] entries.deep_view()[j]).0 != name@,
        decreases entries.len() - i,
    {
        i += 1;
    }
    proof {
        if i < entries.len() {
            lemma_position_found(entries.deep_view(), name@, i as int);
        } else {
            lemma_position_absent(entries.deep_view(), name@);
        }
    }
    i
}

/// A copy of a header list.
pub fn copy_lines(lines: &Vec<(String, String)>) -> (copy: Vec<(String, String)>)
    ensures
        copy.deep_view() == lines.deep_view(),
{
    let mut copy: Vec<(String, String)> = Vec::new();
    let mut k: usize = 0;
    while k < lines.len()
        invariant
            k <= lines.len(),
            copy.deep_view() == lines.deep_view().take(k as int),
        decreases lines.len() - k,
    {
        let ghost before = copy.deep_view();
        copy.push((lines[k].0.clone(), lines[k].1.clone()));
        assert(copy.deep_view() =~= before.push(lines.deep_view()[k as int]));
        assert(lines.deep_view().take(k + 1) =~= lines.deep_view().take(k as int).push(
            lines.deep_view()[k as int],
        ));
        k += 1;
    }
    assert(lines.deep_view().take(lines.len() as int) =~= lines.deep_view());
    copy
}

fn is_hop(name: &String) -> (hop: bool)
    ensures
        hop == is_hop_header(name@),
{
    same_text(name.as_str(), "connection") || same_text(name.as_str(), "content-encoding")
}

/// Drops from the headers of a response from the origin those that are
/// neither stored nor served.
pub fn kept_headers(lines: &Vec<(String, String)>) -> (out: Vec<(String, String)>)
    ensures
        out.deep_view() == kept(lines.deep_view()),
{
    let ghost keep = |line: (Seq<char>, Seq<char>)| !is_hop_header(line.0);
    let mut out: Vec<(String, String)> = Vec::new();
    let mut k: usize = 0;
    proof {
        reveal(Seq::filter);
        assert(lines.deep_view().take(0) =~= Seq::empty());
    }
    while k < lines.len()
        invariant
            k <= lines.len(),
            keep == |line: (Seq<char>, Seq<char>)| !is_hop_header(line.0),
            out.deep_view() == lines.deep_view().take(k as int).filter(keep),
        decreases lines.len() - k,
    {
        let ghost before = out.deep_view();
        proof {
            reveal(Seq::filter);
            assert(lines.deep_view().take(k + 1).drop_last() =~= lines.deep_view().take(k as int));
        }
        if !is_hop(&lines[k].0) {
            out.push((lines[k].0.clone(), lines[k].1.clone()));
            assert(out.deep_view() =~= before.push(lines.deep_view()[k as int]));
        }
        k += 1;
    }
    assert(lines.deep_view().take(lines.len() as int) =~= lines.deep_view());
    out
}

/// Builds the headers of the request to the origin: the headers of the client
/// without `host`, and `host` set to the host of the target.
pub fn outbound_headers(lines: &Vec<(String, String)>, host: &str) -> (out: Vec<(String, String)>)
    ensures
        out.deep_view() == outbound(lines.deep_view(), host@),
{
    let ghost keep = |line: (Seq<char>, Seq<char>)| line.0 != host_name();
    let mut out: Vec<(String, String)> = Vec::new();
    let mut k: usize = 0;
    proof {
        reveal(Seq::filter);
        assert(lines.deep_view().take(0) =~= Seq::empty());
    }
    while k < lines.len()
        invariant
            k <= lines.len(),
            keep == |line: (Seq<char>, Seq<char>)| line.0 != host_name(),
            out.deep_view() == lines.deep_view().take(k as int).filter(keep),
        decreases lines.len() - k,
    {
        let ghost before = out.deep_view();
        proof {
            reveal(Seq::filter);
            assert(lines.deep_view().take(k + 1).drop_last() =~= lines.deep_view().take(k as int));
        }
        if !same_text(lines[k].0.as_str(), "host") {
            out.push((lines[k].0.clone(), lines[k].1.clone()));
            assert(out.deep_view() =~= before.push(lines.deep_view()[k as int]));
        }
        k += 1;
    }
    assert(lines.deep_view().take(lines.len() as int) =~= lines.deep_view());
    let ghost before = out.deep_view();
    out.push((String::from_str("host"), String::from_str(host)));
    assert(out.deep_view() =~= before.push((host_name(), host@)));
    out
}

/// The headers stored with a response: each name once, with its values in
/// order.
#[derive(Debug, PartialEq, Eq)]
pub struct HttpHeaders {
    entries: Vec<(String, Vec<String>)>,
}

impl View for HttpHeaders {
    type V = Seq<(Seq<char>, Seq<Seq<char>>)>;

    closed spec fn view(&self) -> Seq<(Seq<char>, Seq<Seq<char>>)> {
        self.entries.deep_view()
    }
}

impl HttpHeaders {
    #[verifier::type_invariant]
    spec fn names_are_distinct(self) -> bool {
        distinct_names(self.entries.deep_view())
    }

    /// The headers as a map from each name to its values.
    pub open spec fn as_map(self) -> Map<Seq<char>, Seq<Seq<char>>> {
        as_map(self@)
    }

    /// No headers.
    pub fn new() -> (headers: HttpHeaders)
        ensures
            headers@ == Seq::<(Seq<char>, Seq<Seq<char>>)>::empty(),
    {
        let entries: Vec<(String, Vec<String>)> = Vec::new();
        assert(entries.deep_view() =~= Seq::empty());
        HttpHeaders { entries }
    }

    /// Groups a header list by name: the names in the order in which they
    /// first occur, each with all its values in the order of the list.
    pub fn from_pairs(lines: &Vec<(String, String)>) -> (headers: HttpHeaders)
        ensures
            headers@ == grouped(lines.deep_view()),
    {
        let mut entries: Vec<(String, Vec<String>)> = Vec::new();
        let mut k: usize = 0;
        assert(entries.deep_view() =~= grouped(lines.deep_view().take(0)));
        while k < lines.len()
            invariant
                k <= lines.len(),
                entries.deep_view() == grouped(lines.deep_view().take(k as int)),
            decreases lines.len() - k,
        {
            let name: String = lines[k].0.clone();
            let value: String = lines[k].1.clone();
            let ghost before = entries.deep_view();
            let i: usize = find_group(&entries, &name);
            if i < entries.len() {
                let mut group: (String, Vec<String>) = entries.remove(i);
                let ghost values = group.1.deep_view();
                group.1.push(value);
                assert(group.1.deep_view() =~= values.push(value@));
                entries.insert(i, group);
                proof {
                    lemma_position(before, name@);
                    assert(entries.deep_view() =~= before.update(
                        i as int,
                        (name@, before[i as int].1.push(value@)),
                    ));
                }
            } else {
                let mut values: Vec<String> = Vec::new();
                values.push(value);
                assert(values.deep_view() =~= seq![value@]);
                entries.push((name, values));
                assert(entries.deep_view() =~= before.push((name@, seq![value@])));
            }
            proof {
                let next = lines.deep_view().take(k + 1);
                assert(next.drop_last() =~= lines.deep_view().take(k as int));
                assert(next.last() == (name@, value@));
            }
            k += 1;
        }
        proof {
            assert(lines.deep_view().take(lines.len() as int) =~= lines.deep_view());
            lemma_grouped_distinct(lines.deep_view());
        }
        HttpHeaders { entries }
    }

    /// The header list of these headers: every value on a line of its own,
    /// under its name, the values of one name together and in order.
    pub fn lines(&self) -> (lines: Vec<(String, String)>)
        ensures
            lines.deep_view() == flattened(self@),
    {
        let mut lines: Vec<(String, String)> = Vec::new();
        let mut i: usize = 0;
        assert(lines.deep_view() =~= flattened(self.entries.deep_view().take(0)));
        while i < self.entries.len()
            invariant
                i <= self.entries.len(),
                lines.deep_view() == flattened(self.entries.deep_view().take(i as int)),
            decreases self.entries.len() - i,
        {
            let ghost done = lines.deep_view();
            let ghost name = self.entries[i as int].0@;
            let ghost values = self.entries[i as int].1.deep_view();
            let mut j: usize = 0;
            assert(lines.deep_view() =~= done + expanded(name, values.take(0)));
            while j < self.entries[i].1.len()
                invariant
                    i < self.entries.len(),
                    j <= self.entries[i as int].1.len(),
                    name == self.entries[i as int].0@,
                    values == self.entries[i as int].1.deep_view(),
                    lines.deep_view() == done + expanded(name, values.take(j as int)),
                decreases self.entries[i as int].1.len() - j,
            {
                let ghost before = lines.deep_view();
                lines.push((self.entries[i].0.clone(), self.entries[i].1[j].clone()));
                assert(lines.deep_view() =~= before.push((name, values[j as int])));
                assert(expanded(name, values.take(j + 1)) =~= expanded(
                    name,
                    values.take(j as int),
                ).push((name, values[j as int])));
                j += 1;
            }
            proof {
                assert(values.take(values.len() as int) =~= values);
                let next = self.entries.deep_view().take(i + 1);
                assert(next.drop_last() =~= self.entries.deep_view().take(i as int));
                assert(next.last() == (name, values));
            }
            i += 1;
        }
        assert(self.entries.deep_view().take(self.entries.len() as int)
            =~= self.entries.deep_view());
        lines
    }

    /// The headers as a JSON object from each name to the list of its values,
    /// the form in which they are stored; it reads back as the same headers.
    /// `None` where they cannot be written.
    pub fn to_json(&self) -> (r: Option<String>)
        ensures
            match r {
                Some(text) => json_of_headers(self.as_map()) == Some(text@) && headers_of_json(
                    text@,
                ) == Some(self.as_map()),
                None => json_of_headers(self.as_map()) is None,
            },
    {
        proof {
            use_type_invariant(self);
        }
        groups_to_json(&self.entries)
    }

    /// Reads stored headers back, the names in ascending order. `None` where
    /// the text is no JSON object from names to lists of strings.
    pub fn from_json(text: &str) -> (r: Option<HttpHeaders>)
        ensures
            match r {
                Some(headers) => headers_of_json(text@) == Some(headers.as_map())
                    && names_ascending(headers@),
                None => headers_of_json(text@) is None,
            },
    {
        match groups_from_json(text) {
            Some(entries) => {
                proof {
                    lemma_ascending_distinct(entries.deep_view());
                }
                Some(HttpHeaders { entries })
            },
            None => None,
        }
    }
}

impl Clone for HttpHeaders {
    fn clone(&self) -> (copy: Self)
        ensures
            copy@ == self@,
    {
        proof {
            use_type_invariant(self);
        }
        let mut entries: Vec<(String, Vec<String>)> = Vec::new();
        let mut i: usize = 0;
        while i < self.entries.len()
            invariant
                i <= self.entries.len(),
                entries.deep_view() == self.entries.deep_view().take(i as int),
            decreases self.entries.len() - i,
        {
            let mut values: Vec<String> = Vec::new();
            let mut j: usize = 0;
            while j < self.entries[i].1.len()
                invariant
                    i < self.entries.len(),
                    j <= self.entries[i as int].1.len(),
                    values.deep_view() == self.entries[i as int].1.deep_view().take(j as int),
                decreases self.entries[i as int].1.len() - j,
            {
                let ghost before = values.deep_view();
                values.push(self.entries[i].1[j].clone());
                assert(values.deep_view() =~= before.push(
                    self.entries[i as int].1.deep_view()[j as int],
                ));
                assert(self.entries[i as int].1.deep_view().take(j + 1) =~= before.push(
                    self.entries[i as int].1.deep_view()[j as int],
                ));
                j += 1;
            }
            assert(self.entries[i as int].1.deep_view().take(
                self.entries[i as int].1.len() as int,
            ) =~= self.entries[i as int].1.deep_view());
            let ghost before = entries.deep_view();
            entries.push((self.entries[i].0.clone(), values));
            assert(entries.deep_view() =~= before.push(self.entries.deep_view()[i as int]));
            assert(self.entries.deep_view().take(i + 1) =~= before.push(
                self.entries.deep_view()[i as int],
            ));
            i += 1;
        }
        assert(self.entries.deep_view().take(self.entries.len() as int)
            =~= self.entries.deep_view());
        HttpHeaders { entries }
    }
}

} // verus!
