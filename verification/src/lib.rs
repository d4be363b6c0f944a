//! Core logic of a water level dashboard: station search, time-series
//! slicing and downsampling, API payload processing, request validation
//! and error mapping, and cache file naming.

pub mod cache;
pub mod client;
pub mod domain;
pub mod error;
pub mod graph;
pub mod models;
pub mod text;

use vstd::prelude::*;
use vstd::string::StringExecFns;

use crate::domain::{StationSummary, SummaryView};
use crate::text::{chars_of, contains, contains_chars, to_lowercase, trim, trimmed, unicode_lowercase};

verus! {

/// The text that a station search looks in: name, water and id, lower-cased.
pub open spec fn search_text(s: SummaryView) -> Seq<char> {
    unicode_lowercase(s.name + " "@ + s.water + " "@ + s.id)
}

/// A search query as it is matched: trimmed and lower-cased.
pub open spec fn search_key(query: Seq<char>) -> Seq<char> {
    unicode_lowercase(trimmed(query))
}

/// The stations whose search text (`texts[i]` for `list[i]`) contains
/// `key`, in list order.
pub open spec fn matching_texts(list: Seq<SummaryView>, texts: Seq<Seq<char>>, key: Seq<char>) -> Seq<
    SummaryView,
>
    decreases list.len(),
{
    if list.len() == 0 {
        Seq::empty()
    } else {
        let prev = matching_texts(list.drop_last(), texts.drop_last(), key);
        if contains(texts.last(), key) {
            prev.push(list.last())
        } else {
            prev
        }
    }
}

/// The search texts of a list of stations.
pub open spec fn search_texts(list: Seq<SummaryView>) -> Seq<Seq<char>> {
    list.map_values(|s: SummaryView| search_text(s))
}

/// The stations whose search text contains `key`, in list order.
pub open spec fn matching(list: Seq<SummaryView>, key: Seq<char>) -> Seq<SummaryView> {
    matching_texts(list, search_texts(list), key)
}

/// The first of the `found` stations, at most `limit` of them.
pub open spec fn capped(found: Seq<SummaryView>, limit: int) -> Seq<SummaryView> {
    if found.len() <= limit {
        found
    } else {
        found.take(limit)
    }
}

/// The result of a station search: nothing for a blank query, else the
/// first matching stations, at most `limit` of them.
pub open spec fn search_result(list: Seq<SummaryView>, query: Seq<char>, limit: int) -> Seq<
    SummaryView,
> {
    if search_key(query).len() == 0 {
        Seq::empty()
    } else {
        capped(matching(list, search_key(query)), limit)
    }
}

/// The views of a list of station summaries.
pub open spec fn summary_views(list: Seq<StationSummary>) -> Seq<SummaryView> {
    list.map_values(|s: StationSummary| s@)
}

/// The views of a list of strings.
pub open spec fn string_views(list: Seq<String>) -> Seq<Seq<char>> {
    list.map_values(|s: String| s@)
}

proof fn lemma_matching_prefix(list: Seq<SummaryView>, texts: Seq<Seq<char>>, key: Seq<char>, j: int)
    requires
        0 <= j <= list.len(),
        texts.len() == list.len(),
    ensures
        matching_texts(list.take(j), texts.take(j), key).len() <= matching_texts(
            list,
            texts,
            key,
        ).len(),
        matching_texts(list, texts, key).take(
            matching_texts(list.take(j), texts.take(j), key).len() as int,
        ) == matching_texts(list.take(j), texts.take(j), key),
    decreases list.len(),
{
    let c = matching_texts(list, texts, key);
    if j == list.len() {
        assert(list.take(j) =~= list);
        assert(texts.take(j) =~= texts);
        assert(c.take(c.len() as int) =~= c);
    } else {
        assert(list.take(j) =~= list.drop_last().take(j));
        assert(texts.take(j) =~= texts.drop_last().take(j));
        lemma_matching_prefix(list.drop_last(), texts.drop_last(), key, j);
        let a = matching_texts(list.take(j), texts.take(j), key);
        let b = matching_texts(list.drop_last(), texts.drop_last(), key);
        assert(c.take(a.len() as int) =~= a) by {
            assert(b.take(a.len() as int) == a);
            assert forall|k: int| 0 <= k < a.len() implies c[k] == b[k] by {}
        }
    }
}

fn copy_summary(s: &StationSummary) -> (r: StationSummary)
    ensures
        r@ == s@,
{
    StationSummary {
        id: s.id.clone(),
        name: s.name.clone(),
        water: s.water.clone(),
        km: s.km,
        latitude: s.latitude,
        longitude: s.longitude,
    }
}

/// The first stations whose search text (`texts[i]` for `list[i]`)
/// contains `key`, in list order, at most `limit` of them.
pub fn select_matches(list: &[StationSummary], texts: &[String], key: &str, limit: usize) -> (r:
    Vec<StationSummary>)
    requires
        texts.len() == list.len(),
    ensures
        summary_views(r@) == capped(
            matching_texts(summary_views(list@), string_views(texts@), key@),
            limit as int,
        ),
{
    let key_chars = chars_of(key);
    let ghost views = summary_views(list@);
    let ghost tv = string_views(texts@);
    let ghost cap: int = limit as int;
    let n = list.len();
    let mut out: Vec<StationSummary> = Vec::new();
    if limit == 0 {
        assert(summary_views(out@) =~= Seq::<SummaryView>::empty());
        return out;
    }
    let mut i: usize = 0;
    assert(views.take(0) =~= Seq::<SummaryView>::empty());
    assert(summary_views(out@) =~= Seq::<SummaryView>::empty());
    while i < n
        invariant_except_break
            out.len() < cap,
        invariant
            n == list.len(),
            n == texts.len(),
            views == summary_views(list@),
            tv == string_views(texts@),
            key_chars@ == key@,
            cap == limit,
            i <= n,
            summary_views(out@) == matching_texts(views.take(i as int), tv.take(i as int), key@),
        ensures
            i <= n,
            summary_views(out@) == matching_texts(views.take(i as int), tv.take(i as int), key@),
            i < n ==> out.len() == cap,
            i == n ==> out.len() <= cap,
        decreases n - i,
    {
        let text_chars = chars_of(texts[i].as_str());
        let found = contains_chars(&text_chars, &key_chars);
        proof {
            assert(views.take(i + 1).drop_last() =~= views.take(i as int));
            assert(tv.take(i + 1).drop_last() =~= tv.take(i as int));
            assert(views.take(i + 1).last() == list@[i as int]@);
            assert(tv.take(i + 1).last() == texts@[i as int]@);
        }
        if found {
            let ghost before = out@;
            out.push(copy_summary(&list[i]));
            assert(summary_views(out@) =~= summary_views(before).push(list@[i as int]@));
            if out.len() >= limit {
                i = i + 1;
                break;
            }
        }
        i = i + 1;
    }
    proof {
        lemma_matching_prefix(views, tv, key@, i as int);
        if i == n {
            assert(views.take(n as int) =~= views);
            assert(tv.take(n as int) =~= tv);
        }
    }
    out
}

/// Case-insensitive substring search over name, water and id of the
/// stations, capped at `limit` results. A blank query finds nothing. Runs
/// locally.
pub fn filter_stations(list: &[StationSummary], query: &str, limit: usize) -> (r: Vec<
    StationSummary,
>)
    ensures
        summary_views(r@) == search_result(summary_views(list@), query@, limit as int),
        trimmed(query@).len() == 0 ==> r@.len() == 0,
        unicode_lowercase(trimmed(query@)).len() == 0 ==> r@.len() == 0,
        r@.len() <= limit,
        forall|k: int|
            0 <= k < r@.len() ==> listed_match(summary_views(list@), (#[trigger] r@[k])@, query@),
        r@.len() < limit && unicode_lowercase(trimmed(query@)).len() > 0 ==> forall|j: int|
            0 <= j < list@.len() && contains(
                unicode_lowercase(
                    (#[trigger] list@[j]).name@ + " "@ + list@[j].water@ + " "@ + list@[j].id@,
                ),
                unicode_lowercase(trimmed(query@)),
            ) ==> summary_views(r@).contains(list@[j]@),
{
    let trimmed_query = trim(query);
    let key = to_lowercase(trimmed_query);
    if key.as_str().is_empty() {
        let out: Vec<StationSummary> = Vec::new();
        assert(summary_views(out@) =~= Seq::<SummaryView>::empty());
        return out;
    }
    let ghost views = summary_views(list@);
    let mut texts: Vec<String> = Vec::new();
    for i in 0..list.len()
        invariant
            views == summary_views(list@),
            string_views(texts@) == search_texts(views).take(i as int),
    {
        let s = &list[i];
        let mut hay = String::from_str(s.name.as_str());
        hay.append(" ");
        hay.append(s.water.as_str());
        hay.append(" ");
        hay.append(s.id.as_str());
        let text = to_lowercase(hay.as_str());
        let ghost before = texts@;
        texts.push(text);
        assert(string_views(texts@) =~= string_views(before).push(search_text(list@[i as int]@)));
        assert(string_views(texts@) =~= search_texts(views).take(i + 1));
    }
    assert(string_views(texts@) =~= search_texts(views));
    let r = select_matches(list, texts.as_slice(), key.as_str(), limit);
    proof {
        law_search_sound(views, query@, limit as int);
        law_search_complete(views, query@, limit as int);
        let res = search_result(views, query@, limit as int);
        assert forall|k: int| 0 <= k < r@.len() implies listed_match(
            views,
            (#[trigger] r@[k])@,
            query@,
        ) by {
            assert(r@[k]@ == summary_views(r@)[k]);
            assert(res[k] == r@[k]@);
        }
        if r@.len() < limit && unicode_lowercase(trimmed(query@)).len() > 0 {
            assert forall|j: int|
                0 <= j < list@.len() && contains(
                    unicode_lowercase(
                        (#[trigger] list@[j]).name@ + " "@ + list@[j].water@ + " "@ + list@[j].id@,
                    ),
                    unicode_lowercase(trimmed(query@)),
                ) implies summary_views(r@).contains(list@[j]@) by {
                assert(views[j] == list@[j]@);
            }
        }
    }
    r
}

proof fn lemma_matching_complete(list: Seq<SummaryView>, texts: Seq<Seq<char>>, key: Seq<char>)
    requires
        texts.len() == list.len(),
    ensures
        forall|j: int|
            0 <= j < list.len() && contains(texts[j], key) ==> matching_texts(
                list,
                texts,
                key,
            ).contains(#[trigger] list[j]),
    decreases list.len(),
{
    if list.len() > 0 {
        let t = list.drop_last();
        let tt = texts.drop_last();
        lemma_matching_complete(t, tt, key);
        let m = matching_texts(list, texts, key);
        let p = matching_texts(t, tt, key);
        assert forall|j: int| 0 <= j < list.len() && contains(texts[j], key) implies m.contains(
            #[trigger] list[j],
        ) by {
            if j < list.len() - 1 {
                assert(t[j] == list[j]);
                assert(tt[j] == texts[j]);
                assert(p.contains(t[j]));
                let k = choose|k: int| 0 <= k < p.len() && p[k] == t[j];
                assert(m[k] == p[k]);
            } else {
                assert(texts.last() == texts[j]);
                assert(m[m.len() - 1] == list.last());
            }
        }
    }
}

proof fn lemma_matching_sound(list: Seq<SummaryView>, texts: Seq<Seq<char>>, key: Seq<char>)
    requires
        texts.len() == list.len(),
    ensures
        matching_texts(list, texts, key).len() <= list.len(),
        forall|k: int|
            0 <= k < matching_texts(list, texts, key).len() ==> exists|j: int|
                0 <= j < list.len() && list[j] == #[trigger] matching_texts(list, texts, key)[k]
                    && contains(texts[j], key),
    decreases list.len(),
{
    if list.len() > 0 {
        let t = list.drop_last();
        let tt = texts.drop_last();
        lemma_matching_sound(t, tt, key);
        let m = matching_texts(list, texts, key);
        assert forall|k: int| 0 <= k < m.len() implies exists|j: int|
            0 <= j < list.len() && list[j] == #[trigger] m[k] && contains(texts[j], key) by {
            if k < matching_texts(t, tt, key).len() {
                assert(m[k] == matching_texts(t, tt, key)[k]);
                let j = choose|j: int|
                    0 <= j < t.len() && t[j] == matching_texts(t, tt, key)[k] && contains(
                        tt[j],
                        key,
                    );
                assert(list[j] == t[j]);
                assert(texts[j] == tt[j]);
            } else {
                assert(m[k] == list.last());
                let j = list.len() - 1;
                assert(list[j] == list.last());
                assert(texts[j] == texts.last());
            }
        }
    }
}

/// `s` is a station of `list` whose lower-cased "name water id" text
/// contains the trimmed, lower-cased query.
pub open spec fn listed_match(list: Seq<SummaryView>, s: SummaryView, query: Seq<char>) -> bool {
    exists|j: int|
        0 <= j < list.len() && list[j] == s && contains(
            unicode_lowercase(list[j].name + " "@ + list[j].water + " "@ + list[j].id),
            unicode_lowercase(trimmed(query)),
        )
}

/// A search returns at most `limit` stations.
pub proof fn law_search_bounded(list: Seq<SummaryView>, query: Seq<char>, limit: int)
    requires
        limit >= 0,
    ensures
        search_result(list, query, limit).len() <= limit,
{
}

/// Every station that a search returns is one of the list's, and its
/// lower-cased "name water id" text contains the trimmed, lower-cased query.
pub proof fn law_search_sound(list: Seq<SummaryView>, query: Seq<char>, limit: int)
    requires
        limit >= 0,
    ensures
        forall|k: int|
            0 <= k < search_result(list, query, limit).len() ==> listed_match(
                list,
                #[trigger] search_result(list, query, limit)[k],
                query,
            ),
{
    let key = search_key(query);
    lemma_matching_sound(list, search_texts(list), key);
    assert forall|k: int| 0 <= k < search_result(list, query, limit).len() implies listed_match(
        list,
        #[trigger] search_result(list, query, limit)[k],
        query,
    ) by {
        let m = matching(list, key);
        assert(search_result(list, query, limit)[k] == m[k]);
        let j = choose|j: int|
            0 <= j < list.len() && list[j] == m[k] && contains(search_texts(list)[j], key);
        assert(search_texts(list)[j] == search_text(list[j]));
        assert(list[j] == search_result(list, query, limit)[k]);
    }
}

/// A search finds every station whose lower-cased "name water id" text
/// contains the trimmed, lower-cased query anywhere, unless the limit cut
/// the result short; and a blank query finds nothing.
pub proof fn law_search_complete(list: Seq<SummaryView>, query: Seq<char>, limit: int)
    requires
        limit >= 0,
    ensures
        unicode_lowercase(trimmed(query)).len() == 0 ==> search_result(list, query, limit).len()
            == 0,
        search_result(list, query, limit).len() <= limit,
        search_result(list, query, limit).len() < limit && unicode_lowercase(trimmed(query)).len()
            > 0 ==> forall|j: int|
            0 <= j < list.len() && contains(
                unicode_lowercase(
                    (#[trigger] list[j]).name + " "@ + list[j].water + " "@ + list[j].id,
                ),
                unicode_lowercase(trimmed(query)),
            ) ==> search_result(list, query, limit).contains(list[j]),
{
    let key = search_key(query);
    let r = search_result(list, query, limit);
    if r.len() < limit && key.len() > 0 {
        lemma_matching_complete(list, search_texts(list), key);
        let m = matching(list, key);
        assert(r == m);
        assert forall|j: int|
            0 <= j < list.len() && contains(
                unicode_lowercase(
                    (#[trigger] list[j]).name + " "@ + list[j].water + " "@ + list[j].id,
                ),
                unicode_lowercase(trimmed(query)),
            ) implies r.contains(list[j]) by {
            assert(search_texts(list)[j] == search_text(list[j]));
        }
    }
}

/// A search depends on its query only through the query's trimmed,
/// lower-cased form: queries with the same such form find the same stations.
pub proof fn law_search_depends_on_key(list: Seq<SummaryView>, q1: Seq<char>, q2: Seq<char>, limit: int)
    requires
        search_key(q1) == search_key(q2),
    ensures
        search_result(list, q1, limit) == search_result(list, q2, limit),
{
}

/// Queries that differ only in surrounding white space find the same stations.
pub proof fn law_search_ignores_surrounding_space(
    list: Seq<SummaryView>,
    q1: Seq<char>,
    q2: Seq<char>,
    limit: int,
)
    requires
        trimmed(q1) == trimmed(q2),
    ensures
        search_result(list, q1, limit) == search_result(list, q2, limit),
{
}

} // verus!
