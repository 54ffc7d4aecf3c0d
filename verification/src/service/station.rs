//! Which station a query means.

use vstd::prelude::*;

use crate::api::ojp::station;
use crate::api::ojp::tags;
use crate::error;
use crate::error::Error;
use crate::models;
use crate::models::{Station, StationView, StationsResponse, StationsResponseView};
use crate::text;

verus! {

// ---------------------------------------------------------------------------
// Limits
// ---------------------------------------------------------------------------

/// A number within bounds, or a default where there is none.
pub open spec fn bounded(given: Option<usize>, default: usize, min: usize, max: usize) -> usize {
    let n = match given {
        Some(n) => n,
        None => default,
    };
    if n < min {
        min
    } else if n > max {
        max
    } else {
        n
    }
}

fn bound(given: Option<usize>, default: usize, min: usize, max: usize) -> (r: usize)
    ensures
        r == bounded(given, default, min, max),
{
    let n: usize = match given {
        Some(n) => n,
        None => default,
    };
    if n < min {
        min
    } else if n > max {
        max
    } else {
        n
    }
}

/// The number of stations that a search hands out: 10 by default, 50 at most.
pub fn station_limit(given: Option<usize>) -> (r: usize)
    ensures
        r == bounded(given, 10, 0, 50),
{
    bound(given, 10, 0, 50)
}

/// The number of places that a resolution considers: 8 by default, from 1 to 20.
pub fn place_limit(given: Option<usize>) -> (r: usize)
    ensures
        r == bounded(given, 8, 1, 20),
{
    bound(given, 8, 1, 20)
}

/// The number of trips that a search hands out: 5 by default, from 1 to 5.
pub fn trip_limit(given: Option<usize>) -> (r: usize)
    ensures
        r == bounded(given, 5, 1, 5),
{
    bound(given, 5, 1, 5)
}

/// The number of departures that are handed out: 20 by default, 100 at most.
pub fn departure_limit(given: Option<usize>) -> (r: usize)
    ensures
        r == bounded(given, 20, 0, 100),
{
    bound(given, 20, 0, 100)
}

// ---------------------------------------------------------------------------
// Selection
// ---------------------------------------------------------------------------

/// A text without white space at its ends, unless nothing is left.
pub fn normalize_optional_text(value: Option<String>) -> (r: Option<String>)
    ensures
        r.deep_view() == models::filled(value.deep_view()),
{
    match value {
        Some(s) => models::trim_filled(Some(s.as_str())),
        None => None,
    }
}

/// The first station whose name is the key.
pub open spec fn first_exact(stations: Seq<StationView>, key: Seq<char>) -> Option<StationView>
    decreases stations.len(),
{
    if stations.len() == 0 {
        None
    } else if tags::lookup_key(stations[0].name) == key {
        Some(stations[0])
    } else {
        first_exact(stations.drop_first(), key)
    }
}

/// The first station whose name begins with the key.
pub open spec fn first_beginning(stations: Seq<StationView>, key: Seq<char>) -> Option<StationView>
    decreases stations.len(),
{
    if stations.len() == 0 {
        None
    } else if text::starts(tags::lookup_key(stations[0].name), key) {
        Some(stations[0])
    } else {
        first_beginning(stations.drop_first(), key)
    }
}

/// The station that a query means: the first of that name, or else, unless the name must
/// be exact, the first whose name begins so, or else the first.
pub open spec fn selected(query: Seq<char>, stations: Seq<StationView>, strict: bool) -> Option<
    StationView,
> {
    let key = tags::lookup_key(query);
    if first_exact(stations, key) is Some {
        first_exact(stations, key)
    } else if strict || stations.len() == 0 {
        None
    } else if first_beginning(stations, key) is Some {
        first_beginning(stations, key)
    } else {
        Some(stations[0])
    }
}

fn find_exact<'a>(stations: &'a Vec<Station>, key: &str) -> (r: Option<&'a Station>)
    ensures
        match r {
            Some(s) => first_exact(stations.deep_view(), key@) == Some(s.deep_view()),
            None => first_exact(stations.deep_view(), key@) is None,
        },
{
    let ghost all = stations.deep_view();
    let mut i: usize = 0;
    assert(all.skip(0) =~= all);
    while i < stations.len()
        invariant
            i <= stations@.len(),
            all == stations.deep_view(),
            first_exact(all, key@) == first_exact(all.skip(i as int), key@),
        decreases stations@.len() - i,
    {
        assert(all.skip(i as int)[0] == stations@[i as int].deep_view());
        assert(all.skip(i as int).drop_first() =~= all.skip(i + 1));
        let name = tags::normalize_lookup_key(stations[i].name.as_str());
        if text::same(name.as_str(), key) {
            return Some(&stations[i]);
        }
        i += 1;
    }
    None
}

fn find_beginning<'a>(stations: &'a Vec<Station>, key: &str) -> (r: Option<&'a Station>)
    ensures
        match r {
            Some(s) => first_beginning(stations.deep_view(), key@) == Some(s.deep_view()),
            None => first_beginning(stations.deep_view(), key@) is None,
        },
{
    let ghost all = stations.deep_view();
    let mut i: usize = 0;
    assert(all.skip(0) =~= all);
    while i < stations.len()
        invariant
            i <= stations@.len(),
            all == stations.deep_view(),
            first_beginning(all, key@) == first_beginning(all.skip(i as int), key@),
        decreases stations@.len() - i,
    {
        assert(all.skip(i as int)[0] == stations@[i as int].deep_view());
        assert(all.skip(i as int).drop_first() =~= all.skip(i + 1));
        let name = tags::normalize_lookup_key(stations[i].name.as_str());
        if text::has_prefix(name.as_str(), key) {
            return Some(&stations[i]);
        }
        i += 1;
    }
    None
}

/// The station that a query means.
pub fn select_station_candidate<'a>(query: &str, stations: &'a Vec<Station>, strict_exact: bool) -> (r:
    Option<&'a Station>)
    ensures
        match r {
            Some(s) => selected(query@, stations.deep_view(), strict_exact) == Some(s.deep_view()),
            None => selected(query@, stations.deep_view(), strict_exact) is None,
        },
{
    let key = tags::normalize_lookup_key(query);
    let exact = find_exact(stations, key.as_str());
    if exact.is_some() {
        return exact;
    }
    if strict_exact || stations.len() == 0 {
        return None;
    }
    let beginning = find_beginning(stations, key.as_str());
    if beginning.is_some() {
        return beginning;
    }
    Some(&stations[0])
}

/// A station with its reference.
pub open spec fn named_with_id(s: StationView) -> Seq<char> {
    s.name + " ("@ + s.id + ")"@
}

/// Stations with their references.
pub open spec fn all_named_with_id(stations: Seq<StationView>) -> Seq<Seq<char>> {
    Seq::new(stations.len(), |i: int| named_with_id(stations[i]))
}

/// The first stations with their references.
pub open spec fn candidate_list(stations: Seq<StationView>) -> Seq<char> {
    text::joined(all_named_with_id(station::first_of(stations, 8)), ", "@)
}

/// The first stations with their references.
pub fn format_station_candidates(stations: &Vec<Station>) -> (r: String)
    ensures
        r@ == candidate_list(stations.deep_view()),
{
    let n: usize = if stations.len() < 8 {
        stations.len()
    } else {
        8
    };
    let ghost first = station::first_of(stations.deep_view(), 8);
    let mut out: Vec<String> = Vec::new();
    let mut i: usize = 0;
    while i < n
        invariant
            i <= n <= stations@.len(),
            first == station::first_of(stations.deep_view(), 8),
            n == first.len(),
            out@.len() == i,
            forall|k: int| 0 <= k < i ==> (#[trigger] out@[k])@ == named_with_id(first[k]),
        decreases n - i,
    {
        let mut s = stations[i].name.clone();
        s.append(" (");
        s.append(stations[i].id.as_str());
        s.append(")");
        assert(first[i as int] == stations@[i as int].deep_view());
        out.push(s);
        i += 1;
    }
    assert(out.deep_view() =~= all_named_with_id(first));
    text::join(&out, ", ")
}

/// What was searched for, with suggestions.
pub open spec fn with_suggestions(what: Seq<char>, suggestions: Seq<Seq<char>>) -> Seq<char> {
    what + " (suggestions: "@ + text::joined(suggestions, ", "@) + ")"@
}

pub fn add_suggestions(what: String, suggestions: &Vec<String>) -> (r: String)
    ensures
        r@ == with_suggestions(what@, suggestions.deep_view()),
{
    let mut s = what;
    s.append(" (suggestions: ");
    let listed = text::join(suggestions, ", ");
    s.append(listed.as_str());
    s.append(")");
    s
}

/// The answer to a station search; finding nothing is a failure.
pub open spec fn stations_answer(
    query: Seq<char>,
    stations: Seq<StationView>,
    suggestions: Seq<Seq<char>>,
) -> Result<StationsResponseView, Seq<char>> {
    if stations.len() == 0 {
        Err(with_suggestions(query, suggestions))
    } else {
        Ok(StationsResponseView { stations, suggestions })
    }
}

/// The answer to a station search.
pub fn answer_stations(query: &str, stations: Vec<Station>, suggestions: Vec<String>) -> (r: Result<
    StationsResponse,
    Error,
>)
    ensures
        error::outcome(r) == stations_answer(
            query@,
            stations.deep_view(),
            suggestions.deep_view(),
        ),
{
    if stations.len() == 0 {
        return Err(error::failure(add_suggestions(query.to_owned(), &suggestions)));
    }
    Ok(StationsResponse { stations, suggestions })
}

/// The query of a resolution, which must not be blank.
pub fn place_query(query: &str) -> (r: Result<String, Error>)
    ensures
        error::outcome(r) == if text::trimmed(query@).len() == 0 {
            Err("query is required"@)
        } else {
            Ok(text::trimmed(query@))
        },
{
    let t = text::trim(query);
    if t.as_str().is_empty() {
        Err(error::failure("query is required".to_owned()))
    } else {
        Ok(t)
    }
}

/// The place that a query resolves to. What is not found is reported after `missing`, and
/// what is not exact after `inexact`.
pub open spec fn resolved_place(
    missing: Seq<char>,
    inexact: Seq<char>,
    query: Seq<char>,
    stations: Seq<StationView>,
    suggestions: Seq<Seq<char>>,
    strict: bool,
) -> Result<StationView, Seq<char>> {
    if stations.len() == 0 {
        Err(with_suggestions(missing + query, suggestions))
    } else {
        match selected(query, stations, strict) {
            Some(s) => Ok(s),
            None => Err(inexact + query + "'; candidates: "@ + candidate_list(stations)),
        }
    }
}

fn resolve<'a>(
    missing: &str,
    inexact: &str,
    query: &str,
    stations: &'a Vec<Station>,
    suggestions: &Vec<String>,
    strict: bool,
) -> (r: Result<&'a Station, Error>)
    ensures
        match r {
            Ok(s) => resolved_place(
                missing@,
                inexact@,
                query@,
                stations.deep_view(),
                suggestions.deep_view(),
                strict,
            ) == Ok::<_, Seq<char>>(s.deep_view()),
            Err(e) => resolved_place(
                missing@,
                inexact@,
                query@,
                stations.deep_view(),
                suggestions.deep_view(),
                strict,
            ) == Err::<StationView, _>(e.deep_view()),
        },
{
    if stations.len() == 0 {
        let mut what = missing.to_owned();
        what.append(query);
        return Err(error::failure(add_suggestions(what, suggestions)));
    }
    match select_station_candidate(query, stations, strict) {
        Some(s) => Ok(s),
        None => {
            let mut message = inexact.to_owned();
            message.append(query);
            message.append("'; candidates: ");
            let listed = format_station_candidates(stations);
            message.append(listed.as_str());
            Err(error::failure(message))
        },
    }
}

/// The place that a query resolves to.
pub fn resolve_place(query: &str, stations: &Vec<Station>, suggestions: &Vec<String>, strict: bool) -> (r:
    Result<Station, Error>)
    ensures
        error::outcome(r) == resolved_place(
            "place not found: "@,
            "no exact match for '"@,
            query@,
            stations.deep_view(),
            suggestions.deep_view(),
            strict,
        ),
{
    match resolve(
        "place not found: ",
        "no exact match for '",
        query,
        stations,
        suggestions,
        strict,
    ) {
        Ok(s) => Ok(s.clone()),
        Err(e) => Err(e),
    }
}

// ---------------------------------------------------------------------------
// Ends of a trip
// ---------------------------------------------------------------------------

/// How many stations to search for when an end of a trip is to be found.
pub const ENDPOINT_CANDIDATES: usize = 12;

/// An end of a trip that is known.
#[derive(Debug)]
pub struct ResolvedEndpoint {
    /// Its reference.
    pub id: String,
    /// Its name.
    pub name: String,
}

/// The view of a [`ResolvedEndpoint`].
#[verifier::ext_equal]
pub struct ResolvedEndpointView {
    pub id: Seq<char>,
    pub name: Seq<char>,
}

impl DeepView for ResolvedEndpoint {
    type V = ResolvedEndpointView;

    open spec fn deep_view(&self) -> ResolvedEndpointView {
        ResolvedEndpointView { id: self.id@, name: self.name@ }
    }
}

/// How to find an end of a trip.
#[derive(Debug)]
pub enum EndpointStep {
    /// It is known.
    Known(ResolvedEndpoint),
    /// A station has to be searched for.
    Search(String),
    /// It is not given.
    Failed(Error),
}

/// The view of an [`EndpointStep`].
#[verifier::ext_equal]
pub enum EndpointStepView {
    Known(ResolvedEndpointView),
    Search(Seq<char>),
    Failed(Seq<char>),
}

impl DeepView for EndpointStep {
    type V = EndpointStepView;

    open spec fn deep_view(&self) -> EndpointStepView {
        match self {
            EndpointStep::Known(e) => EndpointStepView::Known(e.deep_view()),
            EndpointStep::Search(query) => EndpointStepView::Search(query@),
            EndpointStep::Failed(e) => EndpointStepView::Failed(e.deep_view()),
        }
    }
}

/// An end of a trip by its reference; without a name it goes by the reference.
pub open spec fn known_endpoint(id: Seq<char>, name: Option<Seq<char>>) -> ResolvedEndpointView {
    ResolvedEndpointView {
        id,
        name: match models::filled(name) {
            Some(n) => n,
            None => id,
        },
    }
}

/// How to find an end of a trip: a reference is enough, a name has to be searched for.
pub open spec fn endpoint_step(role: Seq<char>, name: Option<Seq<char>>, id: Option<Seq<char>>) -> EndpointStepView {
    match models::filled(id) {
        Some(i) => EndpointStepView::Known(known_endpoint(i, name)),
        None => match models::filled(name) {
            Some(query) => EndpointStepView::Search(query),
            None => EndpointStepView::Failed(role + " station is required"@),
        },
    }
}

fn make_endpoint(id: String, name: Option<&str>) -> (r: ResolvedEndpoint)
    ensures
        r.deep_view() == known_endpoint(id@, name.deep_view()),
{
    match models::trim_filled(name) {
        Some(n) => ResolvedEndpoint { id, name: n },
        None => {
            let copy = id.clone();
            ResolvedEndpoint { id, name: copy }
        },
    }
}

/// How to find an end of a trip.
pub fn begin_endpoint(role: &str, station_name: Option<&str>, station_id: Option<&str>) -> (r:
    EndpointStep)
    ensures
        r.deep_view() == endpoint_step(role@, station_name.deep_view(), station_id.deep_view()),
{
    match models::trim_filled(station_id) {
        Some(id) => EndpointStep::Known(make_endpoint(id, station_name)),
        None => match models::trim_filled(station_name) {
            Some(query) => EndpointStep::Search(query),
            None => {
                let mut message = role.to_owned();
                message.append(" station is required");
                EndpointStep::Failed(error::failure(message))
            },
        },
    }
}

/// The end of a trip that a search gives.
pub open spec fn found_endpoint(
    role: Seq<char>,
    query: Seq<char>,
    stations: Seq<StationView>,
    suggestions: Seq<Seq<char>>,
    strict: bool,
) -> Result<ResolvedEndpointView, Seq<char>> {
    match resolved_place(
        role + " station not found: "@,
        "no exact "@ + role + " station match for '"@,
        query,
        stations,
        suggestions,
        strict,
    ) {
        Ok(s) => Ok(ResolvedEndpointView { id: s.id, name: s.name }),
        Err(message) => Err(message),
    }
}

/// The end of a trip that a search gives.
pub fn finish_endpoint(
    role: &str,
    query: &str,
    stations: &Vec<Station>,
    suggestions: &Vec<String>,
    strict: bool,
) -> (r: Result<ResolvedEndpoint, Error>)
    ensures
        error::outcome(r) == found_endpoint(
            role@,
            query@,
            stations.deep_view(),
            suggestions.deep_view(),
            strict,
        ),
{
    let mut missing = role.to_owned();
    missing.append(" station not found: ");
    let mut inexact = "no exact ".to_owned();
    inexact.append(role);
    inexact.append(" station match for '");
    match resolve(missing.as_str(), inexact.as_str(), query, stations, suggestions, strict) {
        Ok(s) => Ok(ResolvedEndpoint { id: s.id.clone(), name: s.name.clone() }),
        Err(e) => Err(e),
    }
}

/// The two ends of a trip by their references, which must be given.
pub open spec fn explicit_endpoints(
    from_id: Seq<char>,
    to_id: Seq<char>,
    from_name: Option<Seq<char>>,
    to_name: Option<Seq<char>>,
) -> Result<(ResolvedEndpointView, ResolvedEndpointView), Seq<char>> {
    let from = text::trimmed(from_id);
    let to = text::trimmed(to_id);
    if from.len() == 0 || to.len() == 0 {
        Err("from_id and to_id are required"@)
    } else {
        Ok((known_endpoint(from, from_name), known_endpoint(to, to_name)))
    }
}

/// The two ends of a trip by their references.
pub fn take_explicit_endpoints(
    from_id: &str,
    to_id: &str,
    from_name: Option<&str>,
    to_name: Option<&str>,
) -> (r: Result<(ResolvedEndpoint, ResolvedEndpoint), Error>)
    ensures
        error::outcome(r) == explicit_endpoints(
            from_id@,
            to_id@,
            from_name.deep_view(),
            to_name.deep_view(),
        ),
{
    let from = text::trim(from_id);
    let to = text::trim(to_id);
    if from.as_str().is_empty() || to.as_str().is_empty() {
        return Err(error::failure("from_id and to_id are required".to_owned()));
    }
    Ok((make_endpoint(from, from_name), make_endpoint(to, to_name)))
}

// ---------------------------------------------------------------------------
// Laws
// ---------------------------------------------------------------------------

proof fn lemma_first_exact(stations: Seq<StationView>, key: Seq<char>)
    ensures
        first_exact(stations, key) matches Some(s) ==> stations.contains(s) && tags::lookup_key(
            s.name,
        ) == key,
        first_exact(stations, key) is None ==> forall|i: int|
            0 <= i < stations.len() ==> tags::lookup_key((#[trigger] stations[i]).name) != key,
    decreases stations.len(),
{
    if stations.len() > 0 {
        let rest = stations.drop_first();
        lemma_first_exact(rest, key);
        if tags::lookup_key(stations[0].name) == key {
            assert(stations.contains(stations[0]));
        } else {
            match first_exact(rest, key) {
                Some(s) => {
                    let k = choose|k: int| 0 <= k < rest.len() && rest[k] == s;
                    assert(stations[k + 1] == s);
                },
                None => {
                    assert forall|i: int| 0 <= i < stations.len() implies tags::lookup_key(
                        (#[trigger] stations[i]).name,
                    ) != key by {
                        if i > 0 {
                            assert(stations[i] == rest[i - 1]);
                        }
                    }
                },
            }
        }
    }
}

proof fn lemma_first_beginning(stations: Seq<StationView>, key: Seq<char>)
    ensures
        first_beginning(stations, key) matches Some(s) ==> stations.contains(s),
    decreases stations.len(),
{
    if stations.len() > 0 {
        let rest = stations.drop_first();
        lemma_first_beginning(rest, key);
        if text::starts(tags::lookup_key(stations[0].name), key) {
            assert(stations.contains(stations[0]));
        } else {
            match first_beginning(rest, key) {
                Some(s) => {
                    let k = choose|k: int| 0 <= k < rest.len() && rest[k] == s;
                    assert(stations[k + 1] == s);
                },
                None => {},
            }
        }
    }
}

/// A station that is selected is one of the candidates; if some candidate has exactly the
/// name that is asked for, so has the one that is selected.
pub proof fn law_exact_name_wins(query: Seq<char>, stations: Seq<StationView>, strict: bool, i: int)
    requires
        0 <= i < stations.len(),
        tags::lookup_key(stations[i].name) == tags::lookup_key(query),
    ensures
        selected(query, stations, strict) is Some,
        stations.contains(selected(query, stations, strict)->0),
        tags::lookup_key(selected(query, stations, strict)->0.name) == tags::lookup_key(query),
{
    lemma_first_exact(stations, tags::lookup_key(query));
}

/// Without a candidate of exactly that name, a strict selection gives nothing and any
/// other gives a candidate, if there is one.
pub proof fn law_inexact_selection(query: Seq<char>, stations: Seq<StationView>)
    requires
        forall|i: int|
            0 <= i < stations.len() ==> tags::lookup_key((#[trigger] stations[i]).name)
                != tags::lookup_key(query),
    ensures
        selected(query, stations, true) is None,
        stations.len() > 0 ==> selected(query, stations, false) is Some && stations.contains(
            selected(query, stations, false)->0,
        ),
{
    let key = tags::lookup_key(query);
    lemma_first_exact(stations, key);
    lemma_first_beginning(stations, key);
    match first_exact(stations, key) {
        Some(s) => {
            let k = choose|k: int| 0 <= k < stations.len() && stations[k] == s;
            assert(tags::lookup_key(stations[k].name) == key);
        },
        None => {},
    }
    if stations.len() > 0 {
        assert(stations.contains(stations[0]));
    }
}

// ---------------------------------------------------------------------------
// What a query resolves to
// ---------------------------------------------------------------------------

/// A number is cut to its bounds, and a default takes the place of none.
pub proof fn law_numbers_are_bounded(n: usize, default: usize, min: usize, max: usize)
    requires
        min <= max,
    ensures
        min <= bounded(Some(n), default, min, max) <= max,
        min <= n <= max ==> bounded(Some(n), default, min, max) == n,
        n < min ==> bounded(Some(n), default, min, max) == min,
        n > max ==> bounded(Some(n), default, min, max) == max,
        min <= default <= max ==> bounded(None, default, min, max) == default,
{
}

proof fn lemma_exact_at(stations: Seq<StationView>, key: Seq<char>, k: int)
    requires
        0 <= k <= stations.len(),
        k < stations.len() ==> tags::lookup_key(stations[k].name) == key,
        forall|j: int| 0 <= j < k ==> tags::lookup_key((#[trigger] stations[j]).name) != key,
    ensures
        first_exact(stations, key) == if k < stations.len() {
            Some(stations[k])
        } else {
            None
        },
    decreases stations.len(),
{
    if k > 0 {
        let rest = stations.drop_first();
        assert forall|j: int| 0 <= j < k - 1 implies tags::lookup_key((#[trigger] rest[j]).name)
            != key by {
            assert(rest[j] == stations[j + 1]);
        }
        assert(tags::lookup_key(stations[0].name) != key);
        lemma_exact_at(rest, key, k - 1);
    }
}

proof fn lemma_beginning_at(stations: Seq<StationView>, key: Seq<char>, k: int)
    requires
        0 <= k <= stations.len(),
        k < stations.len() ==> text::starts(tags::lookup_key(stations[k].name), key),
        forall|j: int|
            0 <= j < k ==> !text::starts(tags::lookup_key((#[trigger] stations[j]).name), key),
    ensures
        first_beginning(stations, key) == if k < stations.len() {
            Some(stations[k])
        } else {
            None
        },
    decreases stations.len(),
{
    if k > 0 {
        let rest = stations.drop_first();
        assert forall|j: int| 0 <= j < k - 1 implies !text::starts(
            tags::lookup_key((#[trigger] rest[j]).name),
            key,
        ) by {
            assert(rest[j] == stations[j + 1]);
        }
        assert(!text::starts(tags::lookup_key(stations[0].name), key));
        lemma_beginning_at(rest, key, k - 1);
    }
}

/// The first station of exactly the name that was asked for is selected, whatever the case
/// of the letters and the white space around it, and whether or not it must be exact.
pub proof fn law_first_exact_name_is_selected(
    query: Seq<char>,
    stations: Seq<StationView>,
    strict: bool,
    k: int,
)
    requires
        0 <= k < stations.len(),
        text::lowered(text::trimmed(stations[k].name)) == text::lowered(text::trimmed(query)),
        forall|j: int|
            0 <= j < k ==> text::lowered(text::trimmed((#[trigger] stations[j]).name))
                != text::lowered(text::trimmed(query)),
    ensures
        selected(query, stations, strict) == Some(stations[k]),
{
    lemma_exact_at(stations, tags::lookup_key(query), k);
}

/// Without a station of exactly that name nothing is selected where it must be exact; else
/// the first one whose name begins so, and without such a one the first of all.
pub proof fn law_beginning_is_second_best(query: Seq<char>, stations: Seq<StationView>, k: int)
    requires
        0 <= k <= stations.len(),
        forall|j: int|
            0 <= j < stations.len() ==> text::lowered(text::trimmed((#[trigger] stations[j]).name))
                != text::lowered(text::trimmed(query)),
        k < stations.len() ==> text::starts(
            text::lowered(text::trimmed(stations[k].name)),
            text::lowered(text::trimmed(query)),
        ),
        forall|j: int|
            0 <= j < k ==> !text::starts(
                text::lowered(text::trimmed((#[trigger] stations[j]).name)),
                text::lowered(text::trimmed(query)),
            ),
    ensures
        selected(query, stations, true) is None,
        k < stations.len() ==> selected(query, stations, false) == Some(stations[k]),
        k == stations.len() && stations.len() > 0 ==> selected(query, stations, false) == Some(
            stations[0],
        ),
        stations.len() == 0 ==> selected(query, stations, false) is None,
{
    let key = tags::lookup_key(query);
    lemma_exact_at(stations, key, stations.len() as int);
    lemma_beginning_at(stations, key, k);
}

/// A station search hands out what was found, with the suggestions, and fails where nothing
/// was found; the failure tells the suggestions.
pub proof fn law_found_stations_are_handed_out(
    query: Seq<char>,
    stations: Seq<StationView>,
    suggestions: Seq<Seq<char>>,
)
    ensures
        stations.len() > 0 ==> stations_answer(query, stations, suggestions) == Ok::<_, Seq<char>>(
            StationsResponseView { stations, suggestions },
        ),
        stations.len() == 0 ==> stations_answer(query, stations, suggestions) == Err::<
            StationsResponseView,
            _,
        >(query + " (suggestions: "@ + text::joined(suggestions, ", "@) + ")"@),
{
}

/// A query resolves to the station that is selected. Where nothing was found, the failure
/// tells the suggestions; where nothing is exact, the candidates.
pub proof fn law_place_is_resolved(
    missing: Seq<char>,
    inexact: Seq<char>,
    query: Seq<char>,
    stations: Seq<StationView>,
    suggestions: Seq<Seq<char>>,
    strict: bool,
)
    ensures
        ({
            let r = resolved_place(missing, inexact, query, stations, suggestions, strict);
            &&& r is Ok <==> selected(query, stations, strict) is Some
            &&& r is Ok ==> r->Ok_0 == selected(query, stations, strict)->0
            &&& stations.len() == 0 ==> r == Err::<StationView, _>(
                missing + query + " (suggestions: "@ + text::joined(suggestions, ", "@) + ")"@,
            )
            &&& stations.len() == 1 && r is Err ==> r->Err_0 == inexact + query + "'; candidates: "@
                + stations[0].name + " ("@ + stations[0].id + ")"@
        }),
{
    lemma_selected_of_none(query, stations, strict);
    if stations.len() == 1 {
        assert(all_named_with_id(station::first_of(stations, 8)) =~= seq![
            named_with_id(stations[0]),
        ]);
        assert(candidate_list(stations) == named_with_id(stations[0]));
        let s = stations[0];
        assert(inexact + query + "'; candidates: "@ + named_with_id(s) =~= inexact + query
            + "'; candidates: "@ + s.name + " ("@ + s.id + ")"@);
    }
}

proof fn lemma_selected_of_none(query: Seq<char>, stations: Seq<StationView>, strict: bool)
    ensures
        stations.len() == 0 ==> selected(query, stations, strict) is None,
{
}

/// The candidates are listed with their names and references, the first eight of them.
pub proof fn law_candidates_are_listed(stations: Seq<StationView>, more: StationView)
    ensures
        candidate_list(seq![more]) == more.name + " ("@ + more.id + ")"@,
        0 < stations.len() < 8 ==> candidate_list(stations.push(more)) == candidate_list(stations)
            + ", "@ + (more.name + " ("@ + more.id + ")"@),
        stations.len() >= 8 ==> candidate_list(stations.push(more)) == candidate_list(stations),
{
    assert(all_named_with_id(station::first_of(seq![more], 8)) =~= seq![named_with_id(more)]);
    let all = stations.push(more);
    if 0 < stations.len() < 8 {
        let names = all_named_with_id(station::first_of(all, 8));
        assert(names.drop_last() =~= all_named_with_id(station::first_of(stations, 8)));
        assert(names.last() == named_with_id(more));
    } else if stations.len() >= 8 {
        assert(station::first_of(all, 8) =~= station::first_of(stations, 8));
    }
}

/// An end of a trip is known by its reference, under its name or else its reference; without
/// a reference it is searched for by its name, and without either it is a failure.
pub proof fn law_reference_is_enough(role: Seq<char>, name: Seq<char>, id: Seq<char>)
    requires
        text::trimmed(name).len() > 0,
        text::trimmed(id).len() > 0,
    ensures
        endpoint_step(role, Some(name), Some(id)) == EndpointStepView::Known(
            ResolvedEndpointView { id: text::trimmed(id), name: text::trimmed(name) },
        ),
        endpoint_step(role, None, Some(id)) == EndpointStepView::Known(
            ResolvedEndpointView { id: text::trimmed(id), name: text::trimmed(id) },
        ),
        endpoint_step(role, Some(name), None) == EndpointStepView::Search(text::trimmed(name)),
        endpoint_step(role, None, None) == EndpointStepView::Failed(role + " station is required"@),
{
}

/// The end of a trip that a search gives has the reference and the name of the station that
/// is selected.
pub proof fn law_found_end_is_the_selected_station(
    role: Seq<char>,
    query: Seq<char>,
    stations: Seq<StationView>,
    suggestions: Seq<Seq<char>>,
    strict: bool,
)
    ensures
        ({
            let r = found_endpoint(role, query, stations, suggestions, strict);
            &&& r is Ok <==> selected(query, stations, strict) is Some
            &&& r is Ok ==> r->Ok_0.id == selected(query, stations, strict)->0.id && r->Ok_0.name
                == selected(query, stations, strict)->0.name
            &&& stations.len() == 0 ==> r == Err::<ResolvedEndpointView, _>(
                role + " station not found: "@ + query + " (suggestions: "@ + text::joined(
                    suggestions,
                    ", "@,
                ) + ")"@,
            )
        }),
{
}

/// Two ends by their references keep their order: the first is where the trip begins and the
/// second where it ends. Both must be given.
pub proof fn law_explicit_ends_keep_their_order(
    from_id: Seq<char>,
    to_id: Seq<char>,
    from_name: Seq<char>,
    to_name: Seq<char>,
)
    requires
        text::trimmed(from_name).len() > 0,
        text::trimmed(to_name).len() > 0,
    ensures
        ({
            let r = explicit_endpoints(from_id, to_id, Some(from_name), Some(to_name));
            let bare = explicit_endpoints(from_id, to_id, None, None);
            let given = text::trimmed(from_id).len() > 0 && text::trimmed(to_id).len() > 0;
            &&& r is Ok <==> given
            &&& given ==> r->Ok_0.0 == (ResolvedEndpointView {
                id: text::trimmed(from_id),
                name: text::trimmed(from_name),
            })
            &&& given ==> r->Ok_0.1 == (ResolvedEndpointView {
                id: text::trimmed(to_id),
                name: text::trimmed(to_name),
            })
            &&& given ==> bare->Ok_0.0.name == text::trimmed(from_id)
            &&& given ==> bare->Ok_0.1.name == text::trimmed(to_id)
            &&& !given ==> r == Err::<(ResolvedEndpointView, ResolvedEndpointView), _>(
                "from_id and to_id are required"@,
            )
        }),
{
}

/// Where none of the found stations has exactly the name, the failure tells the role, the
/// query and the candidates.
pub proof fn law_inexact_end_is_told(
    role: Seq<char>,
    query: Seq<char>,
    stations: Seq<StationView>,
    suggestions: Seq<Seq<char>>,
)
    requires
        stations.len() > 0,
        selected(query, stations, true) is None,
    ensures
        found_endpoint(role, query, stations, suggestions, true) == Err::<ResolvedEndpointView, _>(
            "no exact "@ + role + " station match for '"@ + query + "'; candidates: "@
                + candidate_list(stations),
        ),
{
}

} // verus!
