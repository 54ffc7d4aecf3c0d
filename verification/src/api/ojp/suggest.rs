//! Names of stations that are similar to what was asked for.

use vstd::prelude::*;

use crate::models::{Station, StationView};
use crate::order;
use crate::order::Ranked;
use crate::text;

verus! {

/// The similarity by `strsim::jaro_winkler`, as the bits of the number that it returns.
pub uninterp spec fn similarity_bits(a: Seq<char>, b: Seq<char>) -> u64;

/// `strsim::jaro_winkler`: the similarity of two texts, from 0 to 1. The number is handed
/// out as its bits, which are ordered as the numbers are, since none of them is negative.
/// How similar two texts are is not spelled out.
#[verifier::external_body]
fn similarity(a: &str, b: &str) -> (r: u64)
    ensures
        r == similarity_bits(a@, b@),
{
    strsim::jaro_winkler(a, b).to_bits()
}

/// The bits of 0.7, the least similarity of a suggestion.
pub const LEAST_SIMILARITY: u64 = 0x3FE6_6666_6666_6666;

/// A name with its similarity to what was asked for.
#[derive(Debug)]
pub struct ScoredName {
    /// The name.
    pub name: String,
    /// The similarity, as bits.
    pub score: u64,
}

/// The view of a [`ScoredName`].
#[verifier::ext_equal]
pub struct ScoredNameView {
    pub name: Seq<char>,
    pub score: u64,
}

impl DeepView for ScoredName {
    type V = ScoredNameView;

    open spec fn deep_view(&self) -> ScoredNameView {
        ScoredNameView { name: self.name@, score: self.score }
    }
}

impl Ranked for ScoredName {
    /// The most similar name comes first.
    open spec fn precedes(a: ScoredNameView, b: ScoredNameView) -> bool {
        a.score >= b.score
    }

    proof fn comparable(a: ScoredNameView, b: ScoredNameView) {
    }

    proof fn carries_over(a: ScoredNameView, b: ScoredNameView, c: ScoredNameView) {
    }

    fn may_precede(&self, other: &Self) -> (r: bool) {
        self.score >= other.score
    }
}

/// The names of stations.
pub open spec fn station_names(stations: Seq<StationView>) -> Seq<Seq<char>> {
    Seq::new(stations.len(), |i: int| stations[i].name)
}

/// Adds the names of stations.
fn add_names(names: &mut Vec<String>, stations: &Vec<Station>)
    ensures
        final(names).deep_view() == old(names).deep_view() + station_names(stations.deep_view()),
{
    let ghost before = names.deep_view();
    let ghost all = station_names(stations.deep_view());
    let mut i: usize = 0;
    assert(before + all.take(0) =~= before);
    while i < stations.len()
        invariant
            i <= stations@.len(),
            all == station_names(stations.deep_view()),
            names.deep_view() == before + all.take(i as int),
        decreases stations@.len() - i,
    {
        let ghost so_far = names.deep_view();
        names.push(stations[i].name.clone());
        assert(names.deep_view() =~= so_far.push(all[i as int]));
        assert(so_far.push(all[i as int]) =~= before + all.take(i + 1));
        i += 1;
    }
    assert(all.take(i as int) =~= all);
}

/// A list without repetitions in a row.
pub open spec fn without_repeats(names: Seq<Seq<char>>) -> Seq<Seq<char>>
    decreases names.len(),
{
    if names.len() == 0 {
        names
    } else {
        let before = without_repeats(names.drop_last());
        if before.len() > 0 && before.last() == names.last() {
            before
        } else {
            before.push(names.last())
        }
    }
}

/// A list without repetitions in a row.
pub fn remove_repeats(names: &Vec<String>) -> (r: Vec<String>)
    ensures
        r.deep_view() == without_repeats(names.deep_view()),
{
    let ghost all = names.deep_view();
    let mut out: Vec<String> = Vec::new();
    let mut i: usize = 0;
    assert(out.deep_view() =~= without_repeats(all.take(0)));
    while i < names.len()
        invariant
            all == names.deep_view(),
            i <= names@.len(),
            out.deep_view() == without_repeats(all.take(i as int)),
        decreases names@.len() - i,
    {
        assert(all.take(i + 1).drop_last() =~= all.take(i as int));
        assert(all.take(i + 1).last() == names@[i as int]@);
        let repeated = out.len() > 0 && text::same(
            out[out.len() - 1].as_str(),
            names[i].as_str(),
        );
        if !repeated {
            let ghost before = out.deep_view();
            out.push(names[i].clone());
            assert(out.deep_view() =~= before.push(names@[i as int]@));
        }
        i += 1;
    }
    assert(all.take(i as int) =~= all);
    out
}

/// The names that can be suggested: those just found and those known, each once.
pub open spec fn candidates(local: Seq<StationView>, known: Seq<StationView>) -> Seq<Seq<char>> {
    without_repeats(order::sorted::<String>(station_names(local) + station_names(known)))
}

/// Names with their similarity to a query.
pub open spec fn scored(names: Seq<Seq<char>>, query: Seq<char>) -> Seq<ScoredNameView> {
    Seq::new(
        names.len(),
        |i: int|
            ScoredNameView {
                name: names[i],
                score: similarity_bits(text::lowered(names[i]), text::lowered(query)),
            },
    )
}

/// The names of those that are similar enough.
pub open spec fn similar_names(ranked: Seq<ScoredNameView>) -> Seq<Seq<char>>
    decreases ranked.len(),
{
    if ranked.len() == 0 {
        Seq::empty()
    } else {
        let before = similar_names(ranked.drop_last());
        if ranked.last().score >= LEAST_SIMILARITY {
            before.push(ranked.last().name)
        } else {
            before
        }
    }
}

/// The five most similar names of those that are similar enough, the most similar first.
pub open spec fn best_names(names: Seq<ScoredNameView>) -> Seq<Seq<char>> {
    let similar = similar_names(order::sorted::<ScoredName>(names));
    if similar.len() <= 5 {
        similar
    } else {
        similar.take(5)
    }
}

/// The five most similar names of those that are similar enough, the most similar first.
pub fn pick_best_names(names: Vec<ScoredName>) -> (r: Vec<String>)
    ensures
        r.deep_view() == best_names(names.deep_view()),
{
    let ranked = order::sort(names);
    let ghost all = ranked.deep_view();
    let mut out: Vec<String> = Vec::new();
    let mut i: usize = 0;
    assert(out.deep_view() =~= similar_names(all.take(0)));
    while i < ranked.len()
        invariant
            all == ranked.deep_view(),
            i <= ranked@.len(),
            out.deep_view() == similar_names(all.take(i as int)),
        decreases ranked@.len() - i,
    {
        assert(all.take(i + 1).drop_last() =~= all.take(i as int));
        assert(all.take(i + 1).last() == ranked@[i as int].deep_view());
        if ranked[i].score >= LEAST_SIMILARITY {
            let ghost before = out.deep_view();
            out.push(ranked[i].name.clone());
            assert(out.deep_view() =~= before.push(ranked@[i as int].name@));
        }
        i += 1;
    }
    assert(all.take(i as int) =~= all);
    let ghost similar = out.deep_view();
    out.truncate(5);
    assert(out.deep_view() =~= (if similar.len() <= 5 {
        similar
    } else {
        similar.take(5)
    }));
    out
}

/// The suggestions for a query, given the stations just found and those known.
pub open spec fn suggestions(
    query: Seq<char>,
    local: Seq<StationView>,
    known: Seq<StationView>,
) -> Seq<Seq<char>> {
    best_names(scored(candidates(local, known), query))
}

/// The suggestions for a query.
pub fn suggest_station_names(
    query: &str,
    local_results: &Vec<Station>,
    known_stations: &Vec<Station>,
) -> (r: Vec<String>)
    ensures
        r.deep_view() == suggestions(
            query@,
            local_results.deep_view(),
            known_stations.deep_view(),
        ),
{
    let mut names: Vec<String> = Vec::new();
    assert(names.deep_view() =~= Seq::empty());
    add_names(&mut names, local_results);
    add_names(&mut names, known_stations);
    assert(names.deep_view() =~= station_names(local_results.deep_view()) + station_names(
        known_stations.deep_view(),
    ));
    let names = remove_repeats(&order::sort(names));
    let lower_query = text::to_lower(query);
    let ghost all = scored(names.deep_view(), query@);
    let mut scored_names: Vec<ScoredName> = Vec::new();
    let mut i: usize = 0;
    while i < names.len()
        invariant
            i <= names@.len(),
            lower_query@ == text::lowered(query@),
            all == scored(names.deep_view(), query@),
            scored_names@.len() == i,
            forall|k: int| 0 <= k < i ==> (#[trigger] scored_names@[k]).deep_view() == all[k],
        decreases names@.len() - i,
    {
        let lower = text::to_lower(names[i].as_str());
        let score: u64 = similarity(lower.as_str(), lower_query.as_str());
        scored_names.push(ScoredName { name: names[i].clone(), score });
        i += 1;
    }
    assert(scored_names.deep_view() =~= all);
    pick_best_names(scored_names)
}

/// There are at most five suggestions.
pub proof fn law_at_most_five_suggestions(
    query: Seq<char>,
    local: Seq<StationView>,
    known: Seq<StationView>,
)
    ensures
        suggestions(query, local, known).len() <= 5,
{
}

/// Each suggestion is similar enough to the query and is the name of a station that was
/// found or is known.
pub proof fn law_suggestions_are_similar_names(
    query: Seq<char>,
    local: Seq<StationView>,
    known: Seq<StationView>,
    i: int,
)
    requires
        0 <= i < suggestions(query, local, known).len(),
    ensures
        ({
            let name = suggestions(query, local, known)[i];
            &&& similarity_bits(text::lowered(name), text::lowered(query)) >= LEAST_SIMILARITY
            &&& station_names(local).contains(name) || station_names(known).contains(name)
        }),
{
    let names = candidates(local, known);
    let all = scored(names, query);
    let ranked = order::sorted::<ScoredName>(all);
    let name = suggestions(query, local, known)[i];
    lemma_similar_names(ranked, i);
    let k = choose|k: int|
        0 <= k < ranked.len() && (#[trigger] ranked[k]).name == name && ranked[k].score
            >= LEAST_SIMILARITY;
    lemma_sorted_item::<ScoredName>(all, k);
    let j = choose|j: int| 0 <= j < all.len() && all[j] == ranked[k];
    assert(names[j] == name);
    let both = station_names(local) + station_names(known);
    lemma_without_repeats(order::sorted::<String>(both), j);
    let m = choose|m: int|
        0 <= m < order::sorted::<String>(both).len() && order::sorted::<String>(both)[m] == name;
    lemma_sorted_item::<String>(both, m);
    let n = choose|n: int| 0 <= n < both.len() && both[n] == name;
    if n < station_names(local).len() {
        assert(station_names(local)[n] == name);
    } else {
        assert(station_names(known)[n - station_names(local).len()] == name);
    }
}

/// A suggestion is at least as similar to the query as those after it.
pub proof fn law_most_similar_comes_first(
    query: Seq<char>,
    local: Seq<StationView>,
    known: Seq<StationView>,
    i: int,
    j: int,
)
    requires
        0 <= i < j < suggestions(query, local, known).len(),
    ensures
        ({
            let names = suggestions(query, local, known);
            similarity_bits(text::lowered(names[i]), text::lowered(query)) >= similarity_bits(
                text::lowered(names[j]),
                text::lowered(query),
            )
        }),
{
    let all = scored(candidates(local, known), query);
    let ranked = order::sorted::<ScoredName>(all);
    lemma_similar_pair(ranked, i, j);
    let (k, m) = choose|k: int, m: int|
        0 <= k < m < ranked.len() && (#[trigger] ranked[k]).name == similar_names(ranked)[i] && (
        #[trigger] ranked[m]).name == similar_names(ranked)[j];
    lemma_sorted_item::<ScoredName>(all, k);
    lemma_sorted_item::<ScoredName>(all, m);
    order::law_sorted_is_in_order::<ScoredName>(all, k, m);
}

/// No name is suggested twice.
pub proof fn law_suggestions_are_distinct(
    query: Seq<char>,
    local: Seq<StationView>,
    known: Seq<StationView>,
    i: int,
    j: int,
)
    requires
        0 <= i < j < suggestions(query, local, known).len(),
    ensures
        suggestions(query, local, known)[i] != suggestions(query, local, known)[j],
{
    let names = candidates(local, known);
    let all = scored(names, query);
    let ranked = order::sorted::<ScoredName>(all);
    assert forall|x: int, y: int| 0 <= x < y < names.len() implies #[trigger] names[x]
        != #[trigger] names[y] by {
        lemma_candidates_are_distinct(local, known, x, y);
    }
    assert(all.no_duplicates()) by {
        assert forall|x: int, y: int|
            0 <= x < all.len() && 0 <= y < all.len() && x != y implies all[x] != all[y] by {
            assert(all[x].name == names[x] && all[y].name == names[y]);
        }
    }
    all.lemma_multiset_has_no_duplicates();
    order::law_sorted_keeps_items::<ScoredName>(all);
    ranked.lemma_multiset_has_no_duplicates_conv();
    lemma_similar_pair(ranked, i, j);
    let (k, m) = choose|k: int, m: int|
        0 <= k < m < ranked.len() && (#[trigger] ranked[k]).name == similar_names(ranked)[i] && (
        #[trigger] ranked[m]).name == similar_names(ranked)[j];
    lemma_sorted_item::<ScoredName>(all, k);
    lemma_sorted_item::<ScoredName>(all, m);
    let x = choose|x: int| 0 <= x < all.len() && all[x] == ranked[k];
    let y = choose|y: int| 0 <= y < all.len() && all[y] == ranked[m];
    assert(ranked[k] != ranked[m]);
    assert(x != y);
    assert(names[x] != names[y]);
}

proof fn lemma_candidates_are_distinct(
    local: Seq<StationView>,
    known: Seq<StationView>,
    i: int,
    j: int,
)
    requires
        0 <= i < j < candidates(local, known).len(),
    ensures
        candidates(local, known)[i] != candidates(local, known)[j],
{
    let both = station_names(local) + station_names(known);
    let ordered = order::sorted::<String>(both);
    let names = candidates(local, known);
    assert forall|a: int, b: int| 0 <= a < b < ordered.len() implies order::text_precedes(
        #[trigger] ordered[a],
        #[trigger] ordered[b],
    ) by {
        order::law_sorted_is_in_order::<String>(both, a, b);
    }
    lemma_neighbours_differ(ordered, i);
    if names[i] == names[j] && i + 1 < j {
        lemma_stays_in_order(ordered, i, i + 1);
        lemma_stays_in_order(ordered, i + 1, j);
        order::law_text_order_is_strict(names[i], names[i + 1]);
    }
}

proof fn lemma_neighbours_differ(names: Seq<Seq<char>>, i: int)
    requires
        0 <= i < without_repeats(names).len() - 1,
    ensures
        without_repeats(names)[i] != without_repeats(names)[i + 1],
    decreases names.len(),
{
    let before = without_repeats(names.drop_last());
    if i + 1 < before.len() {
        lemma_neighbours_differ(names.drop_last(), i);
    }
}

proof fn lemma_stays_in_order(names: Seq<Seq<char>>, i: int, j: int)
    requires
        forall|a: int, b: int|
            0 <= a < b < names.len() ==> order::text_precedes(
                #[trigger] names[a],
                #[trigger] names[b],
            ),
        0 <= i < j < without_repeats(names).len(),
    ensures
        order::text_precedes(without_repeats(names)[i], without_repeats(names)[j]),
    decreases names.len(),
{
    let shorter = names.drop_last();
    let before = without_repeats(shorter);
    assert forall|a: int, b: int| 0 <= a < b < shorter.len() implies order::text_precedes(
        #[trigger] shorter[a],
        #[trigger] shorter[b],
    ) by {
        assert(shorter[a] == names[a] && shorter[b] == names[b]);
    }
    if j < before.len() {
        lemma_stays_in_order(shorter, i, j);
    } else {
        lemma_without_repeats(shorter, i);
        let k = choose|k: int| 0 <= k < shorter.len() && shorter[k] == before[i];
        assert(names[k] == before[i]);
        assert(order::text_precedes(names[k], names[names.len() - 1]));
    }
}

proof fn lemma_similar_pair(ranked: Seq<ScoredNameView>, i: int, j: int)
    requires
        0 <= i < j < similar_names(ranked).len(),
    ensures
        exists|k: int, m: int|
            0 <= k < m < ranked.len() && (#[trigger] ranked[k]).name == similar_names(ranked)[i]
                && (#[trigger] ranked[m]).name == similar_names(ranked)[j],
    decreases ranked.len(),
{
    let shorter = ranked.drop_last();
    let before = similar_names(shorter);
    if j < before.len() {
        lemma_similar_pair(shorter, i, j);
        let (k, m) = choose|k: int, m: int|
            0 <= k < m < shorter.len() && (#[trigger] shorter[k]).name == before[i] && (
            #[trigger] shorter[m]).name == before[j];
        assert(ranked[k] == shorter[k] && ranked[m] == shorter[m]);
    } else {
        lemma_similar_names(shorter, i);
        let k = choose|k: int|
            0 <= k < shorter.len() && (#[trigger] shorter[k]).name == before[i] && shorter[k].score
                >= LEAST_SIMILARITY;
        assert(ranked[k] == shorter[k]);
        assert(ranked[ranked.len() - 1].name == similar_names(ranked)[j]);
    }
}

proof fn lemma_sorted_item<T: Ranked>(s: Seq<T::V>, i: int)
    requires
        0 <= i < order::sorted::<T>(s).len(),
    ensures
        exists|j: int| 0 <= j < s.len() && s[j] == order::sorted::<T>(s)[i],
{
    broadcast use vstd::seq_lib::group_to_multiset_ensures;

    order::law_sorted_keeps_items::<T>(s);
    let x = order::sorted::<T>(s)[i];
    assert(order::sorted::<T>(s).contains(x));
    assert(order::sorted::<T>(s).to_multiset().contains(x));
    assert(s.to_multiset().contains(x));
    assert(s.contains(x));
}

proof fn lemma_similar_names(ranked: Seq<ScoredNameView>, i: int)
    requires
        0 <= i < similar_names(ranked).len(),
    ensures
        exists|k: int|
            0 <= k < ranked.len() && (#[trigger] ranked[k]).name == similar_names(ranked)[i]
                && ranked[k].score >= LEAST_SIMILARITY,
    decreases ranked.len(),
{
    let before = similar_names(ranked.drop_last());
    if i < before.len() {
        lemma_similar_names(ranked.drop_last(), i);
        let k = choose|k: int|
            0 <= k < ranked.len() - 1 && (#[trigger] ranked.drop_last()[k]).name == before[i]
                && ranked.drop_last()[k].score >= LEAST_SIMILARITY;
        assert(ranked[k].name == similar_names(ranked)[i]);
    } else {
        assert(ranked[ranked.len() - 1].name == similar_names(ranked)[i]);
    }
}

proof fn lemma_without_repeats(names: Seq<Seq<char>>, i: int)
    requires
        0 <= i < without_repeats(names).len(),
    ensures
        exists|k: int| 0 <= k < names.len() && names[k] == without_repeats(names)[i],
    decreases names.len(),
{
    let before = without_repeats(names.drop_last());
    if i < before.len() {
        lemma_without_repeats(names.drop_last(), i);
        let k = choose|k: int| 0 <= k < names.len() - 1 && names.drop_last()[k] == before[i];
        assert(names[k] == without_repeats(names)[i]);
    } else {
        assert(names[names.len() - 1] == without_repeats(names)[i]);
    }
}

/// Leaving out repetitions drops no name.
pub proof fn law_every_name_is_left(names: Seq<Seq<char>>, x: Seq<char>)
    ensures
        without_repeats(names).contains(x) <==> names.contains(x),
    decreases names.len(),
{
    if names.len() > 0 {
        let fewer = names.drop_last();
        let before = without_repeats(fewer);
        let after = without_repeats(names);
        law_every_name_is_left(fewer, x);
        if names.contains(x) {
            let k = choose|k: int| 0 <= k < names.len() && names[k] == x;
            if k < fewer.len() {
                assert(fewer[k] == x);
                let m = choose|m: int| 0 <= m < before.len() && before[m] == x;
                assert(after[m] == x);
            } else {
                assert(after[after.len() - 1] == x);
            }
        }
        if after.contains(x) {
            let m = choose|m: int| 0 <= m < after.len() && after[m] == x;
            if m < before.len() {
                assert(before[m] == x);
                let k = choose|k: int| 0 <= k < fewer.len() && fewer[k] == x;
                assert(names[k] == x);
            } else {
                assert(names[names.len() - 1] == x);
            }
        }
    }
}

proof fn lemma_similar_held(ranked: Seq<ScoredNameView>, k: int)
    requires
        0 <= k < ranked.len(),
        ranked[k].score >= 0x3FE6_6666_6666_6666u64,
    ensures
        similar_names(ranked).contains(ranked[k].name),
    decreases ranked.len(),
{
    let fewer = ranked.drop_last();
    let before = similar_names(fewer);
    let after = similar_names(ranked);
    if k < fewer.len() {
        assert(fewer[k] == ranked[k]);
        lemma_similar_held(fewer, k);
        let m = choose|m: int| 0 <= m < before.len() && before[m] == ranked[k].name;
        assert(after[m] == ranked[k].name);
    } else {
        assert(after[after.len() - 1] == ranked[k].name);
    }
}

/// Where fewer than five names are suggested, every station that was found or is known and
/// is similar enough is among them.
pub proof fn law_similar_names_are_suggested(
    query: Seq<char>,
    local: Seq<StationView>,
    known: Seq<StationView>,
    s: StationView,
)
    requires
        local.contains(s) || known.contains(s),
        similarity_bits(text::lowered(s.name), text::lowered(query)) >= 0x3FE6_6666_6666_6666u64,
        suggestions(query, local, known).len() < 5,
    ensures
        suggestions(query, local, known).contains(s.name),
{
    let both = station_names(local) + station_names(known);
    let x = s.name;
    if local.contains(s) {
        let k = choose|k: int| 0 <= k < local.len() && local[k] == s;
        assert(both[k] == x);
    } else {
        let k = choose|k: int| 0 <= k < known.len() && known[k] == s;
        assert(both[local.len() + k] == x);
    }
    assert(both.contains(x));
    order::law_sorted_holds_the_items::<String>(both, x);
    law_every_name_is_left(order::sorted::<String>(both), x);
    let names = candidates(local, known);
    let j = choose|j: int| 0 <= j < names.len() && names[j] == x;
    let all = scored(names, query);
    assert(all.contains(all[j]));
    order::law_sorted_holds_the_items::<ScoredName>(all, all[j]);
    let ranked = order::sorted::<ScoredName>(all);
    let k = choose|k: int| 0 <= k < ranked.len() && ranked[k] == all[j];
    lemma_similar_held(ranked, k);
}

/// No name is suggested that is less similar than the bound.
pub proof fn law_other_names_are_not_suggested(
    query: Seq<char>,
    local: Seq<StationView>,
    known: Seq<StationView>,
    name: Seq<char>,
)
    requires
        similarity_bits(text::lowered(name), text::lowered(query)) < 0x3FE6_6666_6666_6666u64,
    ensures
        !suggestions(query, local, known).contains(name),
{
    if suggestions(query, local, known).contains(name) {
        let i = choose|i: int|
            0 <= i < suggestions(query, local, known).len() && suggestions(query, local, known)[i]
                == name;
        law_suggestions_are_similar_names(query, local, known, i);
    }
}

} // verus!
