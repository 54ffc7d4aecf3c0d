//! What the client of the journey planner remembers, and what it does with the answers.
//! Sending the questions is left to the caller.

use vstd::prelude::*;

use crate::api::ojp::departure;
use crate::api::ojp::request;
use crate::api::ojp::station;
use crate::api::ojp::suggest;
use crate::api::ojp::trip;
use crate::cache;
use crate::cache::TtlCache;
use crate::duplicate::Duplicate;
use crate::error;
use crate::error::Error;
use crate::models::{
    Departure, DepartureView, Station, StationView, ToolWarning, ToolWarningView, TransportMode,
    Trip,
};
use crate::text;
use crate::time;
use crate::time::FixedDateTime;
use crate::xml;

verus! {

/// What is known of the journey planner between questions.
#[derive(Debug)]
pub struct OjpClient {
    /// Where questions are sent.
    pub endpoint: String,
    /// The token that they carry.
    pub token: String,
    /// Stations, by question.
    pub station_cache: TtlCache<String, Vec<Station>>,
    /// Trips, by question.
    pub trip_cache: TtlCache<String, Vec<Trip>>,
    /// The stations that were ever found.
    pub known_stations: Vec<Station>,
}

/// How a search goes on: with an answer that is at hand, or with a question to send.
#[derive(Debug)]
pub enum SearchStep<T> {
    /// The answer.
    Answer(T),
    /// The document to send.
    Send(String),
}

/// The key of a station search.
pub open spec fn station_key(query: Seq<char>, limit: nat) -> Seq<char> {
    text::lowered(query) + ":"@ + text::decimal(limit)
}

/// The key of a station search.
pub fn write_station_key(query: &str, limit: usize) -> (r: String)
    ensures
        r@ == station_key(query@, limit as nat),
{
    let mut key = text::to_lower(query);
    key.append(":");
    let number = text::write_decimal(limit as u64);
    key.append(number.as_str());
    key
}

/// The names of modes.
pub open spec fn mode_names(modes: Seq<TransportMode>) -> Seq<Seq<char>> {
    Seq::new(modes.len(), |i: int| modes[i].name())
}

/// The key of a trip search.
pub open spec fn trip_key(
    from_ref: Seq<char>,
    to_ref: Seq<char>,
    datetime: Seq<char>,
    modes: Seq<TransportMode>,
    max_results: nat,
) -> Seq<char> {
    text::lowered(from_ref) + ":"@ + text::lowered(to_ref) + ":"@ + datetime + ":"@ + text::joined(
        mode_names(modes),
        ","@,
    ) + ":"@ + text::decimal(max_results)
}

/// The key of a trip search.
pub fn write_trip_key(
    from_ref: &str,
    to_ref: &str,
    datetime: FixedDateTime,
    modes: &[TransportMode],
    max_results: usize,
) -> (r: String)
    ensures
        r@ == trip_key(
            from_ref@,
            to_ref@,
            time::rfc3339_text(datetime),
            modes@,
            max_results as nat,
        ),
{
    let mut names: Vec<String> = Vec::new();
    let mut i: usize = 0;
    while i < modes.len()
        invariant
            i <= modes@.len(),
            names@.len() == i,
            forall|k: int| 0 <= k < i ==> (#[trigger] names@[k])@ == modes@[k].name(),
        decreases modes@.len() - i,
    {
        names.push(modes[i].as_str().to_owned());
        i += 1;
    }
    assert(names.deep_view() =~= mode_names(modes@));
    let mut key = text::to_lower(from_ref);
    key.append(":");
    let to = text::to_lower(to_ref);
    key.append(to.as_str());
    key.append(":");
    let at = time::write_rfc3339(datetime);
    key.append(at.as_str());
    key.append(":");
    let list = text::join(&names, ",");
    key.append(list.as_str());
    key.append(":");
    let number = text::write_decimal(max_results as u64);
    key.append(number.as_str());
    key
}

/// The caveat on an answer from the cache after a failure.
pub open spec fn stale_warning(what: Seq<char>, message: Seq<char>) -> ToolWarningView {
    ToolWarningView {
        message: what + " failed ("@ + message + "); returning stale cached data"@,
        stale: true,
    }
}

/// The caveat on an answer from the cache after a failure.
fn make_stale_warning(what: &str, message: &str) -> (r: ToolWarning)
    ensures
        r.deep_view() == stale_warning(what@, message@),
{
    let mut text = what.to_owned();
    text.append(" failed (");
    text.append(message);
    text.append("); returning stale cached data");
    ToolWarning { message: text, stale: true }
}

/// The known stations after more were found: those whose reference is new are added.
pub open spec fn known_after(known: Seq<StationView>, found: Seq<StationView>) -> Seq<StationView>
    decreases found.len(),
{
    if found.len() == 0 {
        known
    } else {
        let before = known_after(known, found.drop_last());
        if station::has_id(before, found.last().id) {
            before
        } else {
            before.push(found.last())
        }
    }
}

/// Adds the stations whose reference is new.
fn remember(known: &mut Vec<Station>, found: &Vec<Station>)
    ensures
        final(known).deep_view() == known_after(old(known).deep_view(), found.deep_view()),
{
    let ghost first = known.deep_view();
    let ghost all = found.deep_view();
    let mut i: usize = 0;
    assert(known_after(first, all.take(0)) == first);
    while i < found.len()
        invariant
            all == found.deep_view(),
            i <= found@.len(),
            known.deep_view() == known_after(first, all.take(i as int)),
        decreases found@.len() - i,
    {
        assert(all.take(i + 1).drop_last() =~= all.take(i as int));
        assert(all.take(i + 1).last() == found@[i as int].deep_view());
        if !station::contains_id(known, found[i].id.as_str()) {
            let ghost before = known.deep_view();
            known.push(found[i].duplicate());
            assert(known.deep_view() =~= before.push(found@[i as int].deep_view()));
        }
        i += 1;
    }
    assert(all.take(i as int) =~= all);
}

/// The outcome of a station search: the stations, the suggestions and a caveat.
pub open spec fn station_outcome(
    query: Seq<char>,
    limit: nat,
    reply: Result<Seq<char>, Seq<char>>,
    kept: Option<Seq<StationView>>,
    known: Seq<StationView>,
) -> Result<(Seq<StationView>, Seq<Seq<char>>, Option<ToolWarningView>), Seq<char>> {
    match reply {
        Ok(document) => match station::stations_of(xml::xml_items(document), limit as int) {
            Ok(stations) => Ok(
                (
                    stations,
                    suggest::suggestions(query, stations, known_after(known, stations)),
                    None,
                ),
            ),
            Err(message) => Err(message),
        },
        Err(message) => match kept {
            Some(stations) => Ok(
                (
                    stations,
                    suggest::suggestions(query, stations, known),
                    Some(stale_warning("OJP station search"@, message)),
                ),
            ),
            None => Err(message),
        },
    }
}

/// A result without a caveat.
pub open spec fn unwarned<T>(r: Result<T, Seq<char>>) -> Result<
    (T, Option<ToolWarningView>),
    Seq<char>,
> {
    match r {
        Ok(t) => Ok((t, None)),
        Err(message) => Err(message),
    }
}

/// The stations that a reply brings.
pub open spec fn stations_in(reply: Result<Seq<char>, Seq<char>>, limit: nat) -> Option<
    Seq<StationView>,
> {
    match reply {
        Ok(document) => match station::stations_of(xml::xml_items(document), limit as int) {
            Ok(stations) => Some(stations),
            Err(_) => None,
        },
        Err(_) => None,
    }
}

impl OjpClient {
    /// A client that knows nothing yet. Stations are kept for a day, trips for two minutes.
    pub fn new(endpoint: String, token: String) -> (r: OjpClient)
        ensures
            r.endpoint@ == endpoint@,
            r.token@ == token@,
            r.station_cache.lifetime() == 86_400_000_000_000,
            r.station_cache.contents().dom().is_empty(),
            r.trip_cache.lifetime() == 120_000_000_000,
            r.trip_cache.contents().dom().is_empty(),
            r.known_stations@.len() == 0,
    {
        OjpClient {
            endpoint,
            token,
            station_cache: TtlCache::with_ttl(24 * 60 * 60),
            trip_cache: TtlCache::with_ttl(120),
            known_stations: Vec::new(),
        }
    }

    /// Begins a station search: what is in the cache is the answer.
    pub fn search_stations(&mut self, query: &str, limit: usize) -> (r: SearchStep<
        (Vec<Station>, Vec<String>),
    >)
        ensures
            final(self).endpoint == old(self).endpoint,
            final(self).token == old(self).token,
            final(self).trip_cache == old(self).trip_cache,
            final(self).known_stations == old(self).known_stations,
            final(self).station_cache.lifetime() == old(self).station_cache.lifetime(),
            exists|now: int|
                0 <= now && final(self).station_cache.contents() == #[trigger] cache::live(
                    old(self).station_cache.contents(),
                    now,
                ),
            match r {
                SearchStep::Answer((stations, suggestions)) => {
                    &&& cache::value_under(
                        final(self).station_cache.contents(),
                        station_key(query@, limit as nat),
                    ) == Some(stations.deep_view())
                    &&& suggestions.deep_view() == suggest::suggestions(
                        query@,
                        stations.deep_view(),
                        old(self).known_stations.deep_view(),
                    )
                },
                SearchStep::Send(document) => {
                    &&& cache::value_under(
                        final(self).station_cache.contents(),
                        station_key(query@, limit as nat),
                    ) is None
                    &&& exists|now: FixedDateTime|
                        time::zurich_reading(now) && document@ == request::location_request(
                            query@,
                            limit as nat,
                            #[trigger] time::rfc3339_text(now),
                        )
                },
            },
    {
        let key = write_station_key(query, limit);
        match self.station_cache.get(&key) {
            Some(stations) => {
                let suggestions = suggest::suggest_station_names(
                    query,
                    &stations,
                    &self.known_stations,
                );
                SearchStep::Answer((stations, suggestions))
            },
            None => SearchStep::Send(request::build_location_information_request(query, limit)),
        }
    }

    /// Ends a station search with the reply to its question. An answer is kept for the next
    /// time; a failure is made up for by what is in the cache, however old.
    pub fn finish_station_search(
        &mut self,
        query: &str,
        limit: usize,
        reply: Result<String, Error>,
    ) -> (r: Result<(Vec<Station>, Vec<String>, Option<ToolWarning>), Error>)
        ensures
            final(self).endpoint == old(self).endpoint,
            final(self).token == old(self).token,
            final(self).trip_cache == old(self).trip_cache,
            final(self).station_cache.lifetime() == old(self).station_cache.lifetime(),
            error::outcome(r) == station_outcome(
                query@,
                limit as nat,
                error::outcome(reply),
                cache::value_under(
                    old(self).station_cache.contents(),
                    station_key(query@, limit as nat),
                ),
                old(self).known_stations.deep_view(),
            ),
            match stations_in(error::outcome(reply), limit as nat) {
                Some(stations) => {
                    &&& final(self).known_stations.deep_view() == known_after(
                        old(self).known_stations.deep_view(),
                        stations,
                    )
                    &&& exists|now: int|
                        0 <= now && final(self).station_cache.contents()
                            == #[trigger] cache::with_entry(
                            old(self).station_cache.contents(),
                            station_key(query@, limit as nat),
                            stations,
                            now,
                            old(self).station_cache.lifetime(),
                        )
                },
                None => {
                    &&& final(self).known_stations == old(self).known_stations
                    &&& final(self).station_cache == old(self).station_cache
                },
            },
    {
        let key = write_station_key(query, limit);
        match reply {
            Ok(document) => match station::parse_station_response(document.as_str(), limit) {
                Ok(stations) => {
                    self.station_cache.insert(key, stations.duplicate());
                    remember(&mut self.known_stations, &stations);
                    let suggestions = suggest::suggest_station_names(
                        query,
                        &stations,
                        &self.known_stations,
                    );
                    Ok((stations, suggestions, None))
                },
                Err(e) => Err(e),
            },
            Err(e) => match self.station_cache.get_stale(&key) {
                Some(stations) => {
                    let suggestions = suggest::suggest_station_names(
                        query,
                        &stations,
                        &self.known_stations,
                    );
                    let warning = make_stale_warning("OJP station search", e.message.as_str());
                    Ok((stations, suggestions, Some(warning)))
                },
                None => Err(e),
            },
        }
    }

    /// Begins a trip search: what is in the cache is the answer.
    pub fn plan_trip_with_refs(
        &mut self,
        from_station_name: &str,
        from_station_ref: &str,
        to_station_name: &str,
        to_station_ref: &str,
        datetime: FixedDateTime,
        modes: &[TransportMode],
        max_results: usize,
    ) -> (r: SearchStep<Vec<Trip>>)
        ensures
            final(self).endpoint == old(self).endpoint,
            final(self).token == old(self).token,
            final(self).station_cache == old(self).station_cache,
            final(self).known_stations == old(self).known_stations,
            final(self).trip_cache.lifetime() == old(self).trip_cache.lifetime(),
            exists|now: int|
                0 <= now && final(self).trip_cache.contents() == #[trigger] cache::live(
                    old(self).trip_cache.contents(),
                    now,
                ),
            ({
                let kept = cache::value_under(
                    final(self).trip_cache.contents(),
                    trip_key(
                        from_station_ref@,
                        to_station_ref@,
                        time::rfc3339_text(datetime),
                        modes@,
                        max_results as nat,
                    ),
                );
                match r {
                    SearchStep::Answer(trips) => kept == Some(trips.deep_view()),
                    SearchStep::Send(document) => {
                        &&& kept is None
                        &&& exists|now: FixedDateTime|
                            time::zurich_reading(now) && document@ == request::trip_request(
                                (from_station_name@, from_station_ref@),
                                (to_station_name@, to_station_ref@),
                                time::rfc3339_text(datetime),
                                modes@,
                                max_results as nat,
                                #[trigger] time::rfc3339_text(now),
                            )
                    },
                }
            }),
    {
        let key = write_trip_key(from_station_ref, to_station_ref, datetime, modes, max_results);
        match self.trip_cache.get(&key) {
            Some(trips) => SearchStep::Answer(trips),
            None => SearchStep::Send(
                request::build_trip_request(
                    from_station_name,
                    from_station_ref,
                    to_station_name,
                    to_station_ref,
                    datetime,
                    modes,
                    max_results,
                ),
            ),
        }
    }

    /// Ends a trip search with the reply to its question. An answer is kept for the next
    /// time; a failure is made up for by what is in the cache, however old.
    pub fn finish_trip_search(&mut self, key: String, reply: Result<String, Error>) -> (r: Result<
        (Vec<Trip>, Option<ToolWarning>),
        Error,
    >)
        ensures
            final(self).endpoint == old(self).endpoint,
            final(self).token == old(self).token,
            final(self).station_cache == old(self).station_cache,
            final(self).known_stations == old(self).known_stations,
            final(self).trip_cache.lifetime() == old(self).trip_cache.lifetime(),
            reply is Ok ==> exists|ids: Seq<Seq<char>>|
                {
                    let found = #[trigger] trip::trips_of(xml::xml_items(reply->Ok_0@), ids);
                    &&& trip::fresh_for(xml::xml_items(reply->Ok_0@), ids)
                    &&& error::outcome(r) == unwarned(found)
                    &&& match found {
                        Ok(trips) => exists|now: int|
                            0 <= now && final(self).trip_cache.contents()
                                == #[trigger] cache::with_entry(
                                old(self).trip_cache.contents(),
                                key@,
                                trips,
                                now,
                                old(self).trip_cache.lifetime(),
                            ),
                        Err(_) => final(self).trip_cache == old(self).trip_cache,
                    }
                },
            reply is Err ==> {
                &&& final(self).trip_cache == old(self).trip_cache
                &&& error::outcome(r) == match cache::value_under(
                    old(self).trip_cache.contents(),
                    key@,
                ) {
                    Some(trips) => Ok(
                        (
                            trips,
                            Some(
                                stale_warning("OJP trip planning"@, reply->Err_0.deep_view()),
                            ),
                        ),
                    ),
                    None => Err(reply->Err_0.deep_view()),
                }
            },
    {
        match reply {
            Ok(document) => match trip::parse_trip_response(document.as_str()) {
                Ok(trips) => {
                    self.trip_cache.insert(key, trips.duplicate());
                    Ok((trips, None))
                },
                Err(e) => Err(e),
            },
            Err(e) => match self.trip_cache.get_stale(&key) {
                Some(trips) => {
                    let warning = make_stale_warning("OJP trip planning", e.message.as_str());
                    Ok((trips, Some(warning)))
                },
                None => Err(e),
            },
        }
    }

    /// The departures in the reply to a question for departures.
    pub fn departures(reply: Result<String, Error>, limit: usize) -> (r: Result<
        (Vec<Departure>, Option<ToolWarning>),
        Error,
    >)
        ensures
            reply is Ok ==> exists|now: FixedDateTime|
                time::zurich_reading(now) && error::outcome(r) == unwarned(
                    #[trigger] departure::departures_of(
                        xml::xml_items(reply->Ok_0@),
                        limit as int,
                        now,
                    ),
                ),
            reply is Err ==> error::outcome(r) == Err::<
                (Seq<DepartureView>, Option<ToolWarningView>),
                _,
            >(reply->Err_0.deep_view()),
    {
        match reply {
            Ok(document) => match departure::parse_departure_response(document.as_str(), limit) {
                Ok(departures) => Ok((departures, None)),
                Err(e) => Err(e),
            },
            Err(e) => Err(e),
        }
    }
}

/// Two station searches share an answer only if they ask for the same, without regard to
/// case, and for as many stations.
pub proof fn law_station_searches_are_kept_apart(
    query: Seq<char>,
    limit: nat,
    other: Seq<char>,
    other_limit: nat,
)
    requires
        station_key(query, limit) == station_key(other, other_limit),
    ensures
        text::lowered(query) == text::lowered(other),
        limit == other_limit,
{
    reveal_strlit(":");
    let key = station_key(query, limit);
    let (a, b) = (text::lowered(query), text::lowered(other));
    let (d, e) = (text::decimal(limit), text::decimal(other_limit));
    text::law_decimal_is_read_back(limit);
    text::law_decimal_is_read_back(other_limit);
    assert(":"@ =~= seq![':']);
    assert(key == a + seq![':'] + d);
    assert(key == b + seq![':'] + e);
    assert(key.len() == a.len() + 1 + d.len());
    assert(key.len() == b.len() + 1 + e.len());
    assert(key[a.len() as int] == ':');
    assert(key[b.len() as int] == ':');
    if a.len() < b.len() {
        assert(key[b.len() as int] == d[b.len() - a.len() - 1]);
        assert(text::is_digit(d[b.len() - a.len() - 1]));
    } else if b.len() < a.len() {
        assert(key[a.len() as int] == e[a.len() - b.len() - 1]);
        assert(text::is_digit(e[a.len() - b.len() - 1]));
    }
    assert(a =~= key.take(a.len() as int));
    assert(b =~= key.take(a.len() as int));
    assert(d =~= key.skip(a.len() as int + 1));
    assert(e =~= key.skip(a.len() as int + 1));
}

/// What a station search found is the answer to the next one, without regard to case,
/// until its time is over.
pub proof fn law_station_search_is_remembered(
    entries: Map<Seq<char>, cache::EntryView<Seq<StationView>>>,
    query: Seq<char>,
    again: Seq<char>,
    limit: nat,
    stations: Seq<StationView>,
    made: int,
    lifetime: int,
    now: int,
)
    requires
        text::lowered(query) == text::lowered(again),
    ensures
        cache::value_under(
            cache::live(
                cache::with_entry(entries, station_key(query, limit), stations, made, lifetime),
                now,
            ),
            station_key(again, limit),
        ) == if now < made + lifetime {
            Some(stations)
        } else {
            None
        },
{
    cache::law_entry_lives_its_time(
        entries,
        station_key(query, limit),
        stations,
        made,
        lifetime,
        now,
    );
}

/// Known stations are never forgotten, and all of what was found is known.
pub proof fn law_known_stations_grow(known: Seq<StationView>, found: Seq<StationView>)
    ensures
        known.len() <= known_after(known, found).len(),
        known_after(known, found).take(known.len() as int) == known,
        forall|i: int|
            0 <= i < found.len() ==> station::has_id(
                known_after(known, found),
                (#[trigger] found[i]).id,
            ),
    decreases found.len(),
{
    if found.len() == 0 {
        assert(known.take(known.len() as int) =~= known);
    } else {
        let shorter = found.drop_last();
        law_known_stations_grow(known, shorter);
        let before = known_after(known, shorter);
        let after = known_after(known, found);
        assert(after.take(known.len() as int) =~= before.take(known.len() as int));
        assert forall|i: int| 0 <= i < found.len() implies station::has_id(
            after,
            (#[trigger] found[i]).id,
        ) by {
            if i < shorter.len() {
                assert(found[i] == shorter[i]);
                let k = choose|k: int| 0 <= k < before.len() && (#[trigger] before[k]).id
                    == found[i].id;
                assert(after[k].id == found[i].id);
            } else if !station::has_id(before, found[i].id) {
                assert(after[before.len() as int].id == found[i].id);
            }
        }
    }
}

/// Two trip searches that differ in one thing alone share an answer only if it is told apart
/// by nothing but the case of the ends' letters: the origin, the destination, the time, the
/// modes and the number of trips all count.
pub proof fn law_trip_searches_are_kept_apart(
    from_ref: Seq<char>,
    to_ref: Seq<char>,
    datetime: Seq<char>,
    modes: Seq<TransportMode>,
    n: nat,
    other: Seq<char>,
    other_modes: Seq<TransportMode>,
    m: nat,
)
    ensures
        ({
            let key = trip_key(from_ref, to_ref, datetime, modes, n);
            &&& key == trip_key(other, to_ref, datetime, modes, n) <==> text::lowered(from_ref)
                == text::lowered(other)
            &&& key == trip_key(from_ref, other, datetime, modes, n) <==> text::lowered(to_ref)
                == text::lowered(other)
            &&& key == trip_key(from_ref, to_ref, other, modes, n) <==> datetime == other
            &&& key == trip_key(from_ref, to_ref, datetime, other_modes, n) <==> text::joined(
                mode_names(modes),
                ","@,
            ) == text::joined(mode_names(other_modes), ","@)
            &&& key == trip_key(from_ref, to_ref, datetime, modes, m) <==> n == m
        }),
{
    let (f, t, j) = (
        text::lowered(from_ref),
        text::lowered(to_ref),
        text::joined(mode_names(modes), ","@),
    );
    let c = ":"@;
    let d = text::decimal(n);
    let e = text::decimal(m);
    let o = text::lowered(other);
    let k = text::joined(mode_names(other_modes), ","@);
    text::law_decimal_is_read_back(n);
    text::law_decimal_is_read_back(m);
    let tail = c + t + c + datetime + c + j + c + d;
    let none = Seq::<char>::empty();
    assert(trip_key(from_ref, to_ref, datetime, modes, n) =~= none + f + tail);
    assert(trip_key(other, to_ref, datetime, modes, n) =~= none + o + tail);
    lemma_middle(none, f, o, tail);
    let tail = c + datetime + c + j + c + d;
    let head = f + c;
    assert(trip_key(from_ref, to_ref, datetime, modes, n) =~= head + t + tail);
    assert(trip_key(from_ref, other, datetime, modes, n) =~= head + o + tail);
    lemma_middle(head, t, o, tail);
    let tail = c + j + c + d;
    let head = f + c + t + c;
    assert(trip_key(from_ref, to_ref, datetime, modes, n) =~= head + datetime + tail);
    assert(trip_key(from_ref, to_ref, other, modes, n) =~= head + other + tail);
    lemma_middle(head, datetime, other, tail);
    let tail = c + d;
    let head = f + c + t + c + datetime + c;
    assert(trip_key(from_ref, to_ref, datetime, modes, n) =~= head + j + tail);
    assert(trip_key(from_ref, to_ref, datetime, other_modes, n) =~= head + k + tail);
    lemma_middle(head, j, k, tail);
    let head = f + c + t + c + datetime + c + j + c;
    assert(trip_key(from_ref, to_ref, datetime, modes, n) =~= head + d + none);
    assert(trip_key(from_ref, to_ref, datetime, modes, m) =~= head + e + none);
    lemma_middle(head, d, e, none);
}

proof fn lemma_middle(head: Seq<char>, a: Seq<char>, b: Seq<char>, tail: Seq<char>)
    ensures
        head + a + tail == head + b + tail <==> a == b,
{
    let (x, y) = (head + a + tail, head + b + tail);
    if x == y {
        assert(x.len() == head.len() + a.len() + tail.len());
        assert(y.len() == head.len() + b.len() + tail.len());
        assert(a =~= x.subrange(head.len() as int, head.len() as int + a.len()));
        assert(b =~= y.subrange(head.len() as int, head.len() as int + a.len()));
    }
}

/// A station becomes known if its reference was not: it comes after those known.
pub proof fn law_new_station_becomes_known(
    known: Seq<StationView>,
    found: Seq<StationView>,
    s: StationView,
)
    ensures
        known_after(known, Seq::empty()) == known,
        (exists|i: int|
            0 <= i < known_after(known, found).len() && (#[trigger] known_after(known, found)[i]).id
                == s.id) ==> known_after(known, found.push(s)) == known_after(known, found),
        (forall|i: int|
            0 <= i < known_after(known, found).len() ==> (#[trigger] known_after(known, found)[i]).id
                != s.id) ==> known_after(known, found.push(s)) == known_after(known, found).push(s),
{
    assert(found.push(s).drop_last() =~= found);
}

/// After a failure the kept stations stand in, with a caveat that is stale and tells the
/// failure; without kept stations the failure is the outcome.
pub proof fn law_kept_stations_stand_in(
    query: Seq<char>,
    limit: nat,
    message: Seq<char>,
    stations: Seq<StationView>,
    known: Seq<StationView>,
)
    ensures
        ({
            let r = station_outcome(query, limit, Err(message), Some(stations), known);
            &&& r matches Ok((found, names, Some(w))) && found == stations && names
                == suggest::suggestions(query, stations, known) && w.stale && w.message
                == "OJP station search failed ("@ + message + "); returning stale cached data"@
            &&& station_outcome(query, limit, Err(message), None, known) is Err
            &&& station_outcome(query, limit, Err(message), None, known)->Err_0 == message
            &&& stations_in(Err(message), limit) is None
        }),
{
    reveal_strlit("OJP station search failed (");
    reveal_strlit("OJP station search");
    reveal_strlit(" failed (");
    assert("OJP station search failed ("@ =~= "OJP station search"@ + " failed ("@);
    assert("OJP station search failed ("@ + message + "); returning stale cached data"@
        =~= "OJP station search"@ + " failed ("@ + message + "); returning stale cached data"@);
}

/// A reply is the outcome, without a caveat and whatever was kept, and what it brings is
/// known at once.
pub proof fn law_reply_is_the_outcome(
    query: Seq<char>,
    limit: nat,
    document: Seq<char>,
    kept: Option<Seq<StationView>>,
    known: Seq<StationView>,
)
    ensures
        ({
            let read = station::stations_of(xml::xml_items(document), limit as int);
            let r = station_outcome(query, limit, Ok(document), kept, known);
            &&& read is Ok <==> r is Ok
            &&& read is Err ==> r->Err_0 == read->Err_0
            &&& read is Ok ==> (r matches Ok((found, names, None)) && found == read->Ok_0 && names
                == suggest::suggestions(query, found, known_after(known, found)))
            &&& read is Ok ==> stations_in(Ok(document), limit) == Some(read->Ok_0)
            &&& read is Err ==> stations_in(Ok(document), limit) is None
        }),
{
}

} // verus!
