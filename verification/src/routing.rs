use vstd::prelude::*;
use vstd::relations::*;

use crate::text::{
    join, lemma_lex_connected, lemma_lex_transitive, lemma_sorted_unique, lemma_text_order_total,
    lex_leq, string_views, strip_slashes, text_leq, text_order, without_char,
};

verus! {

broadcast use vstd::seq_lib::group_to_multiset_ensures;

/// A route that knows its own URL path.
pub trait SerializableAsUrl {
    /// The path this route is served under. Each route type states it.
    open spec fn url(&self) -> Seq<char> {
        Seq::empty()
    }

    fn as_url(&self) -> (path: &'static str)
        ensures
            path@ == self.url(),
    ;
}

/// Where a route is mounted: at the root, or under a parent segment.
pub enum Prefix {
    Root,
    Nested(&'static str),
}

/// The query parameters to append to a URL, if any.
pub enum QueryParams {
    Empty,
    From(Vec<(String, String)>),
}

// ---------------------------------------------------------------------------
// Query parameters
// ---------------------------------------------------------------------------

/// The views of a sequence of name/value pairs.
pub open spec fn pair_views(items: Seq<(String, String)>) -> Seq<(Seq<char>, Seq<char>)> {
    items.map_values(|p: (String, String)| (p.0@, p.1@))
}

/// The last position in `entries` whose name is `name`, or -1.
pub open spec fn key_position(entries: Seq<(Seq<char>, Seq<char>)>, name: Seq<char>) -> int
    decreases entries.len(),
{
    if entries.len() == 0 {
        -1
    } else if entries.last().0 == name {
        entries.len() - 1
    } else {
        key_position(entries.drop_last(), name)
    }
}

/// The parameters gathered by name, as a map does it: a later pair replaces
/// the value of an earlier pair of the same name. Names are listed in the
/// order in which they first appear.
pub open spec fn collect_params(items: Seq<(Seq<char>, Seq<char>)>) -> Seq<(Seq<char>, Seq<char>)>
    decreases items.len(),
{
    if items.len() == 0 {
        Seq::empty()
    } else {
        let earlier = collect_params(items.drop_last());
        let pair = items.last();
        let q = key_position(earlier, pair.0);
        if q >= 0 {
            earlier.update(q, pair)
        } else {
            earlier.push(pair)
        }
    }
}

/// The map from names to values that the parameters describe.
pub open spec fn param_map(items: Seq<(Seq<char>, Seq<char>)>) -> Map<Seq<char>, Seq<char>>
    decreases items.len(),
{
    if items.len() == 0 {
        Map::empty()
    } else {
        param_map(items.drop_last()).insert(items.last().0, items.last().1)
    }
}

/// `name=value`.
pub open spec fn entry_text(pair: (Seq<char>, Seq<char>)) -> Seq<char> {
    pair.0 + seq!['='] + pair.1
}

/// One `name=value` text per collected parameter.
pub open spec fn query_entries(items: Seq<(Seq<char>, Seq<char>)>) -> Seq<Seq<char>> {
    collect_params(items).map_values(|p: (Seq<char>, Seq<char>)| entry_text(p))
}

/// The `name=value` texts in text order.
pub open spec fn sorted_query_entries(items: Seq<(Seq<char>, Seq<char>)>) -> Seq<Seq<char>> {
    query_entries(items).sort_by(text_order())
}

/// The path part of a URL.
pub open spec fn url_path(prefix: Prefix, route: Seq<char>) -> Seq<char> {
    match prefix {
        Prefix::Root => route,
        Prefix::Nested(parent) => seq!['/'] + without_char(parent@, '/') + seq!['/']
            + without_char(route, '/'),
    }
}

/// The URL for a route: its path, then, when parameters are given, `?` and
/// the sorted `name=value` entries joined by `&`.
pub open spec fn built_url(prefix: Prefix, route: Seq<char>, params: QueryParams) -> Seq<char> {
    match params {
        QueryParams::Empty => url_path(prefix, route),
        QueryParams::From(items) => url_path(prefix, route) + seq!['?'] + join(
            sorted_query_entries(pair_views(items@)),
            seq!['&'],
        ),
    }
}

/// No two entries have the same name.
pub open spec fn distinct_names(entries: Seq<(Seq<char>, Seq<char>)>) -> bool {
    forall|i: int, j: int| 0 <= i < j < entries.len() ==> entries[i].0 != entries[j].0
}

proof fn lemma_key_position(entries: Seq<(Seq<char>, Seq<char>)>, name: Seq<char>)
    ensures
        -1 <= key_position(entries, name) < entries.len(),
        key_position(entries, name) >= 0 ==> entries[key_position(entries, name)].0 == name,
        key_position(entries, name) == -1 ==> forall|r: int|
            0 <= r < entries.len() ==> entries[r].0 != name,
    decreases entries.len(),
{
    if entries.len() > 0 {
        lemma_key_position(entries.drop_last(), name);
        if entries.last().0 != name {
            assert forall|r: int| 0 <= r < entries.len() - 1 implies entries[r].0
                == entries.drop_last()[r].0 by {}
        }
    }
}

/// Gathering parameters keeps one entry per name, and that entry holds the
/// value that the map of the parameters (later pairs replacing earlier ones)
/// gives the name; every name of the parameters has its entry.
pub proof fn law_collected_params_match_map(items: Seq<(Seq<char>, Seq<char>)>)
    ensures
        distinct_names(collect_params(items)),
        forall|i: int|
            0 <= i < collect_params(items).len() ==> #[trigger] param_map(items).contains_key(
                collect_params(items)[i].0,
            ) && param_map(items)[collect_params(items)[i].0] == collect_params(items)[i].1,
        forall|name: Seq<char>|
            #[trigger] param_map(items).contains_key(name) ==> exists|i: int|
                0 <= i < collect_params(items).len() && collect_params(items)[i].0 == name,
    decreases items.len(),
{
    if items.len() > 0 {
        let rest = items.drop_last();
        let earlier = collect_params(rest);
        let pair = items.last();
        let now = collect_params(items);
        let m = param_map(items);
        law_collected_params_match_map(rest);
        lemma_key_position(earlier, pair.0);
        let q = key_position(earlier, pair.0);
        assert forall|i: int| 0 <= i < now.len() implies #[trigger] m.contains_key(now[i].0)
            && m[now[i].0] == now[i].1 by {
            if i < earlier.len() && now[i] == earlier[i] && now[i].0 != pair.0 {
                assert(param_map(rest).contains_key(earlier[i].0));
            }
        }
        assert forall|name: Seq<char>| #[trigger] m.contains_key(name) implies exists|i: int|
            0 <= i < now.len() && now[i].0 == name by {
            if name == pair.0 {
                if q >= 0 {
                    assert(now[q].0 == name);
                } else {
                    assert(now[now.len() - 1].0 == name);
                }
            } else {
                assert(param_map(rest).contains_key(name));
                let i = choose|i: int| 0 <= i < earlier.len() && earlier[i].0 == name;
                assert(now[i].0 == name);
            }
        }
    }
}

/// Parameters whose names are distinct are kept as given.
pub proof fn lemma_collect_distinct(items: Seq<(Seq<char>, Seq<char>)>)
    requires
        distinct_names(items),
    ensures
        collect_params(items) == items,
    decreases items.len(),
{
    if items.len() > 0 {
        let rest = items.drop_last();
        lemma_collect_distinct(rest);
        lemma_key_position(rest, items.last().0);
        if key_position(rest, items.last().0) >= 0 {
            let q = key_position(rest, items.last().0);
            assert(items[q].0 == items[items.len() - 1].0);
        }
        assert(rest.push(items.last()) =~= items);
    }
}

proof fn lemma_map_values_multiset<A, B>(a: Seq<A>, b: Seq<A>, f: spec_fn(A) -> B)
    requires
        a.to_multiset() =~= b.to_multiset(),
    ensures
        a.map_values(f).to_multiset() =~= b.map_values(f).to_multiset(),
    decreases a.len(),
{
    assert(a.len() == a.to_multiset().len());
    assert(b.len() == b.to_multiset().len());
    if a.len() == 0 {
        assert(a.map_values(f) =~= b.map_values(f));
    } else {
        let x = a.last();
        let a1 = a.drop_last();
        assert(a1.push(x) =~= a);
        assert(a.to_multiset().count(x) > 0);
        assert(b.contains(x));
        let k = choose|k: int| 0 <= k < b.len() && b[k] == x;
        let b1 = b.remove(k);
        assert(a1.to_multiset() =~= a.to_multiset().remove(x));
        assert(b1.to_multiset() =~= b.to_multiset().remove(x));
        lemma_map_values_multiset(a1, b1, f);
        assert(a.map_values(f) =~= a1.map_values(f).push(f(x)));
        assert(b.map_values(f).remove(k) =~= b1.map_values(f));
        assert(b.map_values(f).to_multiset() =~= b1.map_values(f).to_multiset().insert(f(x)));
    }
}

/// The order in which parameters of distinct names are given does not
/// change the URL: the entries always come out sorted.
pub proof fn law_query_order_irrelevant(
    prefix: Prefix,
    route: Seq<char>,
    first: Vec<(String, String)>,
    second: Vec<(String, String)>,
)
    requires
        distinct_names(pair_views(first@)),
        pair_views(first@).to_multiset() =~= pair_views(second@).to_multiset(),
    ensures
        built_url(prefix, route, QueryParams::From(first)) == built_url(
            prefix,
            route,
            QueryParams::From(second),
        ),
        sorted_by(sorted_query_entries(pair_views(first@)), text_order()),
{
    let a = pair_views(first@);
    let b = pair_views(second@);
    assert(distinct_names(b)) by {
        assert forall|i: int, j: int| 0 <= i < j < b.len() implies b[i].0 != b[j].0 by {
            if b[i].0 == b[j].0 {
                assert(b.len() == b.to_multiset().len());
                assert(a.len() == a.to_multiset().len());
                assert(b.to_multiset().count(b[i]) > 0);
                assert(a.contains(b[i]));
                assert(b.to_multiset().count(b[j]) > 0);
                assert(a.contains(b[j]));
                let ia = choose|k: int| 0 <= k < a.len() && a[k] == b[i];
                let ja = choose|k: int| 0 <= k < a.len() && a[k] == b[j];
                if ia == ja {
                    // equal pairs at two places of `second` occur twice in `first`
                    let b1 = b.remove(i);
                    assert(b1.to_multiset() =~= b.to_multiset().remove(b[i]));
                    assert(b1[j - 1] == b[j]);
                    assert(b1.to_multiset().count(b[i]) > 0);
                    let a1 = a.remove(ia);
                    assert(a1.to_multiset() =~= a.to_multiset().remove(a[ia]));
                    assert(a1.contains(b[i]));
                    let ka = choose|k: int| 0 <= k < a1.len() && a1[k] == b[i];
                    if ka < ia {
                        assert(a[ka].0 == a[ia].0);
                    } else {
                        assert(a[ka + 1].0 == a[ia].0);
                    }
                } else if ia < ja {
                    assert(a[ia].0 == a[ja].0);
                } else {
                    assert(a[ja].0 == a[ia].0);
                }
            }
        }
    }
    lemma_collect_distinct(a);
    lemma_collect_distinct(b);
    let f = |p: (Seq<char>, Seq<char>)| entry_text(p);
    lemma_map_values_multiset(a, b, f);
    lemma_text_order_total();
    query_entries(a).lemma_sort_by_ensures(text_order());
    query_entries(b).lemma_sort_by_ensures(text_order());
    lemma_sorted_unique(sorted_query_entries(a), sorted_query_entries(b), text_order());
}

proof fn lemma_listing_contains(items: Seq<(Seq<char>, Seq<char>)>, pair: (Seq<char>, Seq<char>))
    ensures
        collect_params(items).contains(pair) <==> (param_map(items).contains_key(pair.0)
            && param_map(items)[pair.0] == pair.1),
{
    law_collected_params_match_map(items);
    let c = collect_params(items);
    let m = param_map(items);
    if m.contains_key(pair.0) && m[pair.0] == pair.1 {
        assert(m.contains_key(pair.0));
        let i = choose|i: int| 0 <= i < c.len() && c[i].0 == pair.0;
        assert(m.contains_key(c[i].0));
        assert(c[i] == pair);
    }
    if c.contains(pair) {
        let i = choose|i: int| 0 <= i < c.len() && c[i] == pair;
        assert(m.contains_key(c[i].0));
    }
}

proof fn lemma_distinct_names_no_duplicates(entries: Seq<(Seq<char>, Seq<char>)>)
    requires
        distinct_names(entries),
    ensures
        entries.no_duplicates(),
{
    assert forall|i: int, j: int| 0 <= i < entries.len() && 0 <= j < entries.len() && i != j implies entries[i] != entries[j] by {
        if i < j {
            assert(entries[i].0 != entries[j].0);
        } else {
            assert(entries[j].0 != entries[i].0);
        }
    }
}

/// The URL depends only on the final value given to each name: parameter
/// lists that describe the same map (later pairs replacing earlier ones)
/// give the same URL, whatever their order and repetitions.
pub proof fn law_query_depends_only_on_final_values(
    prefix: Prefix,
    route: Seq<char>,
    first: Vec<(String, String)>,
    second: Vec<(String, String)>,
)
    requires
        param_map(pair_views(first@)) == param_map(pair_views(second@)),
    ensures
        built_url(prefix, route, QueryParams::From(first)) == built_url(
            prefix,
            route,
            QueryParams::From(second),
        ),
{
    let a = pair_views(first@);
    let b = pair_views(second@);
    let ca = collect_params(a);
    let cb = collect_params(b);
    law_collected_params_match_map(a);
    law_collected_params_match_map(b);
    lemma_distinct_names_no_duplicates(ca);
    lemma_distinct_names_no_duplicates(cb);
    ca.lemma_multiset_has_no_duplicates();
    cb.lemma_multiset_has_no_duplicates();
    assert forall|pair: (Seq<char>, Seq<char>)| ca.to_multiset().count(pair) == cb.to_multiset().count(pair) by {
        lemma_listing_contains(a, pair);
        lemma_listing_contains(b, pair);
        if ca.contains(pair) {
            assert(ca.to_multiset().contains(pair));
            assert(cb.contains(pair));
            assert(cb.to_multiset().contains(pair));
        } else {
            assert(!cb.contains(pair));
        }
    }
    assert(ca.to_multiset() =~= cb.to_multiset());
    let f = |p: (Seq<char>, Seq<char>)| entry_text(p);
    lemma_map_values_multiset(ca, cb, f);
    lemma_text_order_total();
    query_entries(a).lemma_sort_by_ensures(text_order());
    query_entries(b).lemma_sort_by_ensures(text_order());
    lemma_sorted_unique(sorted_query_entries(a), sorted_query_entries(b), text_order());
}

/// With a single parameter the query text is `name=value`.
pub proof fn lemma_single_param_query(name: Seq<char>, value: Seq<char>)
    ensures
        join(sorted_query_entries(seq![(name, value)]), seq!['&']) == name + seq!['='] + value,
{
    let items = seq![(name, value)];
    assert(distinct_names(items));
    lemma_collect_distinct(items);
    let entries = query_entries(items);
    assert(entries =~= seq![entry_text((name, value))]);
    lemma_text_order_total();
    entries.lemma_sort_by_ensures(text_order());
    assert(sorted_by(entries, text_order()));
    lemma_sorted_unique(entries, entries.sort_by(text_order()), text_order());
}

// ---------------------------------------------------------------------------
// Executable parts
// ---------------------------------------------------------------------------

proof fn lemma_key_position_found(entries: Seq<(Seq<char>, Seq<char>)>, name: Seq<char>, q: int)
    requires
        0 <= q < entries.len(),
        entries[q].0 == name,
        forall|r: int| q < r < entries.len() ==> entries[r].0 != name,
    ensures
        key_position(entries, name) == q,
    decreases entries.len(),
{
    if q < entries.len() - 1 {
        lemma_key_position_found(entries.drop_last(), name, q);
    }
}

proof fn lemma_key_position_absent(entries: Seq<(Seq<char>, Seq<char>)>, name: Seq<char>)
    requires
        forall|r: int| 0 <= r < entries.len() ==> entries[r].0 != name,
    ensures
        key_position(entries, name) == -1,
    decreases entries.len(),
{
    if entries.len() > 0 {
        lemma_key_position_absent(entries.drop_last(), name);
    }
}

/// Gathers the parameters by name; a later pair replaces an earlier one.
fn collect_query_params(items: &Vec<(String, String)>) -> (entries: Vec<(String, String)>)
    ensures
        pair_views(entries@) == collect_params(pair_views(items@)),
{
    let mut entries: Vec<(String, String)> = Vec::new();
    let mut i: usize = 0;
    while i < items.len()
        invariant
            i <= items.len(),
            pair_views(entries@) == collect_params(pair_views(items@).take(i as int)),
        decreases items.len() - i,
    {
        let name = items[i].0.clone();
        let value = items[i].1.clone();
        let ghost before = pair_views(entries@);
        let ghost prefix = pair_views(items@).take(i + 1);
        proof {
            assert(prefix.drop_last() =~= pair_views(items@).take(i as int));
            assert(prefix.last() == (name@, value@));
        }
        let mut j = entries.len();
        let mut found = false;
        while j > 0 && !found
            invariant
                j <= entries.len(),
                before == pair_views(entries@),
                found ==> j < entries.len() && before[j as int].0 == name@,
                forall|r: int|
                    j + (if found { 1int } else { 0int }) <= r < entries.len() ==> before[r].0
                        != name@,
            decreases j,
        {
            j = j - 1;
            if entries[j].0 == name {
                found = true;
            }
        }
        if found {
            proof {
                lemma_key_position_found(before, name@, j as int);
            }
            entries.set(j, (name, value));
            proof {
                assert(pair_views(entries@) =~= before.update(j as int, prefix.last()));
            }
        } else {
            proof {
                lemma_key_position_absent(before, name@);
            }
            entries.push((name, value));
            proof {
                assert(pair_views(entries@) =~= before.push(prefix.last()));
            }
        }
        i = i + 1;
    }
    proof {
        assert(pair_views(items@).take(items.len() as int) =~= pair_views(items@));
    }
    entries
}

/// Inserts `entry` into a vector kept in text order.
fn insert_in_order(sorted: &mut Vec<String>, entry: String)
    requires
        sorted_by(string_views(old(sorted)@), text_order()),
    ensures
        sorted_by(string_views(final(sorted)@), text_order()),
        string_views(final(sorted)@).to_multiset() =~= string_views(old(sorted)@).to_multiset().insert(
            entry@,
        ),
{
    proof {
        lemma_text_order_total();
    }
    let ghost before = string_views(sorted@);
    let ghost x = entry@;
    let mut p: usize = 0;
    let mut placed = false;
    while p < sorted.len() && !placed
        invariant
            p <= sorted.len(),
            before == string_views(sorted@),
            x == entry@,
            forall|q: int| 0 <= q < p ==> lex_leq(#[trigger] before[q], x),
            placed ==> p < before.len() && !lex_leq(before[p as int], x),
        decreases sorted.len() - p + (if placed { 0int } else { 1int }),
    {
        proof {
            assert(before[p as int] == sorted@[p as int]@);
        }
        if text_leq(sorted[p].as_str(), entry.as_str()) {
            p = p + 1;
        } else {
            placed = true;
        }
    }
    sorted.insert(p, entry);
    proof {
        let after = string_views(sorted@);
        let r = text_order();
        assert(after =~= before.insert(p as int, x));
        if p < before.len() {
            assert(!lex_leq(before[p as int], x));
            lemma_lex_connected(before[p as int], x);
        }
        assert forall|i: int, j: int| 0 <= i < j < after.len() implies #[trigger] r(
            after[i],
            after[j],
        ) by {
            if j < p {
                assert(r(before[i], before[j]));
            } else if j == p {
                assert(lex_leq(before[i], x));
            } else if i <= p {
                assert(lex_leq(x, before[p as int]));
                if j - 1 > p {
                    assert(r(before[p as int], before[j - 1]));
                    lemma_lex_transitive(x, before[p as int], before[j - 1]);
                }
                assert(lex_leq(x, before[j - 1]));
                if i < p {
                    assert(lex_leq(before[i], x));
                    lemma_lex_transitive(before[i], x, before[j - 1]);
                }
            } else {
                assert(r(before[i - 1], before[j - 1]));
            }
        }
        assert(after.remove(p as int) =~= before);
        assert(after[p as int] == x);
    }
}

/// Joins the parts with `sep` between consecutive parts.
fn join_with(parts: &Vec<String>, sep: &str) -> (joined: String)
    ensures
        joined@ == join(string_views(parts@), sep@),
{
    let mut joined = String::new();
    let mut i: usize = 0;
    while i < parts.len()
        invariant
            i <= parts.len(),
            joined@ == join(string_views(parts@).take(i as int), sep@),
        decreases parts.len() - i,
    {
        proof {
            assert(string_views(parts@).take(i + 1).drop_last() =~= string_views(parts@).take(
                i as int,
            ));
        }
        if i > 0 {
            joined.append(sep);
        }
        joined.append(parts[i].as_str());
        proof {
            if i == 0 {
                assert(joined@ =~= string_views(parts@).take(1)[0]);
            }
        }
        i = i + 1;
    }
    proof {
        assert(string_views(parts@).take(parts.len() as int) =~= string_views(parts@));
    }
    joined
}

/// The sorted, `&`-joined query text of the parameters.
fn query_text(items: &Vec<(String, String)>) -> (text: String)
    ensures
        text@ == join(sorted_query_entries(pair_views(items@)), seq!['&']),
{
    let entries = collect_query_params(items);
    let ghost wanted = query_entries(pair_views(items@));
    let mut sorted: Vec<String> = Vec::new();
    let mut i: usize = 0;
    proof {
        reveal_strlit("=");
        reveal_strlit("&");
        assert("="@ =~= seq!['=']);
        assert("&"@ =~= seq!['&']);
    }
    while i < entries.len()
        invariant
            i <= entries.len(),
            wanted == pair_views(entries@).map_values(
                |p: (Seq<char>, Seq<char>)| entry_text(p),
            ),
            "="@ == seq!['='],
            sorted_by(string_views(sorted@), text_order()),
            string_views(sorted@).to_multiset() =~= wanted.take(i as int).to_multiset(),
        decreases entries.len() - i,
    {
        let mut entry = entries[i].0.clone();
        entry.append("=");
        entry.append(entries[i].1.as_str());
        proof {
            assert(entry@ == wanted[i as int]);
            assert(wanted.take(i + 1) =~= wanted.take(i as int).push(wanted[i as int]));
        }
        insert_in_order(&mut sorted, entry);
        i = i + 1;
    }
    proof {
        assert(wanted.take(entries.len() as int) =~= wanted);
        lemma_text_order_total();
        wanted.lemma_sort_by_ensures(text_order());
        lemma_sorted_unique(string_views(sorted@), wanted.sort_by(text_order()), text_order());
    }
    join_with(&sorted, "&")
}

/// Builds the URL of a route under a prefix, with optional query parameters.
///
/// Under a nested prefix every `/` is taken out of the parent and of the
/// route path, and the two are joined as `/parent/route`. Query parameters
/// are gathered by name (a later value replaces an earlier one), written as
/// `name=value`, sorted, and joined by `&`.
pub fn build_url<R: SerializableAsUrl>(prefix: Prefix, route_name: R, query_params: QueryParams) -> (url: String)
    ensures
        url@ == built_url(prefix, route_name.url(), query_params),
{
    let route = route_name.as_url();
    let mut path = String::new();
    match prefix {
        Prefix::Root => {
            path.append(route);
        },
        Prefix::Nested(parent) => {
            proof {
                reveal_strlit("/");
                assert("/"@ =~= seq!['/']);
            }
            path.append("/");
            let parent_part = strip_slashes(parent);
            path.append(parent_part.as_str());
            path.append("/");
            let route_part = strip_slashes(route);
            path.append(route_part.as_str());
        },
    }
    match query_params {
        QueryParams::Empty => path,
        QueryParams::From(items) => {
            proof {
                reveal_strlit("?");
                assert("?"@ =~= seq!['?']);
            }
            path.append("?");
            let query = query_text(&items);
            path.append(query.as_str());
            path
        },
    }
}

} // verus!
