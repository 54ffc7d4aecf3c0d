//! The GTFS Realtime feed: departures, live data on trips, and disruptions.

use vstd::prelude::*;

use crate::api::gtfs_realtime::alert::Cause;
use crate::api::gtfs_realtime::stop_time_update;
use crate::api::gtfs_realtime::trip_descriptor;
use crate::api::gtfs_realtime::{
    AlertView, EntitySelector, EntitySelectorView, FeedEntity, FeedEntityView, FeedMessage,
    FeedMessageView, StopTimeEvent, StopTimeEventView, StopTimeUpdate, StopTimeUpdateView,
    TimeRange, TimeRangeView, TranslatedString, TranslatedStringView, TripUpdate, TripUpdateView,
};
use crate::api::gtfs_realtime::translated_string::TranslationView;
use crate::api::ojp::station;
use crate::api::ojp::tags;
use crate::cache;
use crate::cache::TtlCache;
use crate::duplicate::Duplicate;
use crate::error;
use crate::error::Error;
use crate::identifier;
use crate::models;
use crate::models::{
    Departure, DepartureView, Disruption, DisruptionView, PlatformChangeView, StopUpdate,
    StopUpdateView, ToolWarning, ToolWarningView, TripDetails, TripDetailsView, TripStatus,
};
use crate::order;
use crate::text;
use crate::time;
use crate::time::{FixedDateTime, MAX_SECONDS, MIN_SECONDS};

verus! {

// ---------------------------------------------------------------------------
// The feed and its cache
// ---------------------------------------------------------------------------

/// What is known of the feed between questions.
#[derive(Debug)]
pub struct GtfsRtClient {
    /// Where the feed is.
    pub endpoint: String,
    /// The token that a request carries.
    pub token: String,
    /// The feed, under its key.
    pub cache: TtlCache<String, FeedMessage>,
}

/// What came of a request for the feed.
#[derive(Debug)]
pub enum FeedReply {
    /// The feed.
    Feed(FeedMessage),
    /// An answer with a status other than success.
    Refused {
        /// The status, in words.
        status: String,
        /// The address that answered.
        url: String,
        /// The body of the answer.
        body: String,
    },
    /// An answer that could not be read; the message of the failure.
    Unreadable(String),
    /// No answer; the message of the failure.
    Unreachable(String),
}

/// The view of a [`FeedReply`].
pub enum FeedReplyView {
    Feed(FeedMessageView),
    Refused { status: Seq<char>, url: Seq<char>, body: Seq<char> },
    Unreadable(Seq<char>),
    Unreachable(Seq<char>),
}

impl DeepView for FeedReply {
    type V = FeedReplyView;

    open spec fn deep_view(&self) -> FeedReplyView {
        match self {
            FeedReply::Feed(feed) => FeedReplyView::Feed(feed.deep_view()),
            FeedReply::Refused { status, url, body } => FeedReplyView::Refused {
                status: status@,
                url: url@,
                body: body@,
            },
            FeedReply::Unreadable(message) => FeedReplyView::Unreadable(message@),
            FeedReply::Unreachable(message) => FeedReplyView::Unreachable(message@),
        }
    }
}

/// The first characters of a text.
pub open spec fn excerpt(s: Seq<char>, length: int) -> Seq<char> {
    if s.len() <= length {
        s
    } else {
        s.take(length)
    }
}

/// The first characters of a text.
pub fn take_excerpt(s: &str, length: usize) -> (r: String)
    ensures
        r@ == excerpt(s@, length as int),
{
    let chars = text::chars_of(s);
    if chars.len() <= length {
        s.to_owned()
    } else {
        text::text_between(&chars, 0, length)
    }
}

/// The message for a refusal; it quotes the beginning of the body.
pub open spec fn refusal(status: Seq<char>, url: Seq<char>, body: Seq<char>) -> Seq<char> {
    let t = text::trimmed(body);
    let head = "GTFS-RT API returned status "@ + status + " at "@ + url;
    if t.len() == 0 {
        head
    } else {
        head + " (body: "@ + excerpt(t, 220) + ")"@
    }
}

/// The message for a refusal.
fn refusal_message(status: &str, url: &str, body: &str) -> (r: String)
    ensures
        r@ == refusal(status@, url@, body@),
{
    let t = text::trim(body);
    let mut message = "GTFS-RT API returned status ".to_owned();
    message.append(status);
    message.append(" at ");
    message.append(url);
    if !t.as_str().is_empty() {
        message.append(" (body: ");
        let quoted = take_excerpt(t.as_str(), 220);
        message.append(quoted.as_str());
        message.append(")");
    }
    message
}

/// The caveat on a feed from the cache after a failure.
pub open spec fn stale_feed_warning(message: Seq<char>) -> ToolWarningView {
    ToolWarningView {
        message: "GTFS-RT request failed ("@ + message + "); returning stale cached feed"@,
        stale: true,
    }
}

/// The outcome of a request for the feed. Only a service that cannot be reached is made
/// up for by what is in the cache.
pub open spec fn feed_outcome(reply: FeedReplyView, kept: Option<FeedMessageView>) -> Result<
    (FeedMessageView, Option<ToolWarningView>),
    Seq<char>,
> {
    match reply {
        FeedReplyView::Feed(feed) => Ok((feed, None)),
        FeedReplyView::Refused { status, url, body } => Err(refusal(status, url, body)),
        FeedReplyView::Unreadable(message) => Err(message),
        FeedReplyView::Unreachable(message) => match kept {
            Some(feed) => Ok((feed, Some(stale_feed_warning(message)))),
            None => Err(message),
        },
    }
}

impl GtfsRtClient {
    /// A client that knows nothing yet. The feed is kept for half a minute.
    pub fn new(endpoint: String, token: String) -> (r: GtfsRtClient)
        ensures
            r.endpoint@ == endpoint@,
            r.token@ == token@,
            r.cache.lifetime() == 30_000_000_000,
            r.cache.contents().dom().is_empty(),
    {
        GtfsRtClient { endpoint, token, cache: TtlCache::with_ttl(30) }
    }

    /// The feed that is at hand, if it is fresh.
    pub fn cached_feed(&mut self) -> (r: Option<FeedMessage>)
        ensures
            final(self).endpoint == old(self).endpoint,
            final(self).token == old(self).token,
            final(self).cache.lifetime() == old(self).cache.lifetime(),
            exists|now: int|
                0 <= now && final(self).cache.contents() == #[trigger] cache::live(
                    old(self).cache.contents(),
                    now,
                ),
            r.deep_view() == cache::value_under(final(self).cache.contents(), "feed"@),
    {
        let key = "feed".to_owned();
        self.cache.get(&key)
    }

    /// Ends a request for the feed with its reply. A feed is kept for the next time.
    pub fn finish_fetch(&mut self, reply: FeedReply) -> (r: Result<
        (FeedMessage, Option<ToolWarning>),
        Error,
    >)
        ensures
            final(self).endpoint == old(self).endpoint,
            final(self).token == old(self).token,
            final(self).cache.lifetime() == old(self).cache.lifetime(),
            error::outcome(r) == feed_outcome(
                reply.deep_view(),
                cache::value_under(old(self).cache.contents(), "feed"@),
            ),
            reply is Feed ==> exists|now: int|
                0 <= now && final(self).cache.contents() == #[trigger] cache::with_entry(
                    old(self).cache.contents(),
                    "feed"@,
                    reply->Feed_0.deep_view(),
                    now,
                    old(self).cache.lifetime(),
                ),
            !(reply is Feed) ==> final(self).cache == old(self).cache,
    {
        let key = "feed".to_owned();
        match reply {
            FeedReply::Feed(feed) => {
                self.cache.insert(key, feed.duplicate());
                Ok((feed, None))
            },
            FeedReply::Refused { status, url, body } => Err(
                error::failure(refusal_message(status.as_str(), url.as_str(), body.as_str())),
            ),
            FeedReply::Unreadable(message) => Err(error::failure(message)),
            FeedReply::Unreachable(message) => match self.cache.get_stale(&key) {
                Some(feed) => {
                    let mut caveat = "GTFS-RT request failed (".to_owned();
                    caveat.append(message.as_str());
                    caveat.append("); returning stale cached feed");
                    Ok((feed, Some(ToolWarning { message: caveat, stale: true })))
                },
                None => Err(error::failure(message)),
            },
        }
    }
}

// ---------------------------------------------------------------------------
// Departures
// ---------------------------------------------------------------------------

/// The departure from a stop, or else the arrival there.
pub open spec fn event_at(update: StopTimeUpdateView) -> Option<StopTimeEventView> {
    tags::or_else(update.departure, update.arrival)
}

/// When an event is expected; now, if the feed gives no time that the calendar has.
pub open spec fn expected_at(event: StopTimeEventView, now: FixedDateTime) -> FixedDateTime {
    match event.time {
        Some(t) if t >= 0 => match time::timestamp_value(t as u64) {
            Some(at) => at,
            None => now,
        },
        _ => now,
    }
}

/// The delay of an event, in seconds.
pub open spec fn delay_of(event: StopTimeEventView) -> i32 {
    match event.delay {
        Some(seconds) => seconds,
        None => 0,
    }
}

/// Data on a stop that is about a station and says when.
pub open spec fn concerns(update: StopTimeUpdateView, station_id: Seq<char>) -> bool {
    update.stop_id == Some(station_id) && event_at(update) is Some
}

/// The departure that the data on a stop describes. The planned time lies as many minutes
/// before the expected one as the delay has seconds.
pub open spec fn departure_at(
    update: StopTimeUpdateView,
    trip_id: Option<Seq<char>>,
    now: FixedDateTime,
) -> DepartureView {
    let event = event_at(update)->0;
    let expected = expected_at(event, now);
    let minutes = time::toward_zero(delay_of(event) as int, 60) as i32;
    DepartureView {
        trip_id,
        line: None,
        service: models::service_label(None, None),
        destination: match update.stop_headsign {
            Some(sign) => sign,
            None => "Unknown destination"@,
        },
        mode: None,
        scheduled: time::moved_back(expected, delay_of(event) as int)->0,
        expected,
        delay_minutes: minutes,
        platform: None,
        status: TripStatus::of_delay(minutes as int),
    }
}

/// The planned time of the data on a stop lies within the calendar, where it is about a
/// station.
pub open spec fn in_calendar(
    update: StopTimeUpdateView,
    station_id: Seq<char>,
    now: FixedDateTime,
) -> bool {
    concerns(update, station_id) ==> {
        let event = event_at(update)->0;
        MIN_SECONDS <= expected_at(event, now).unix() - 60 * delay_of(event) <= MAX_SECONDS
    }
}

/// The departures from a station in the data on a trip.
pub open spec fn departures_in(
    updates: Seq<StopTimeUpdateView>,
    trip_id: Option<Seq<char>>,
    station_id: Seq<char>,
    now: FixedDateTime,
) -> Seq<DepartureView>
    decreases updates.len(),
{
    if updates.len() == 0 {
        Seq::empty()
    } else {
        let before = departures_in(updates.drop_last(), trip_id, station_id, now);
        if concerns(updates.last(), station_id) {
            before.push(departure_at(updates.last(), trip_id, now))
        } else {
            before
        }
    }
}

/// The reference of the trip that data is about.
pub open spec fn trip_id_of(update: TripUpdateView) -> Option<Seq<char>> {
    match update.trip {
        Some(trip) => trip.trip_id,
        None => None,
    }
}

/// The departures from a station in messages.
pub open spec fn departures_among(
    entities: Seq<FeedEntityView>,
    station_id: Seq<char>,
    now: FixedDateTime,
) -> Seq<DepartureView>
    decreases entities.len(),
{
    if entities.len() == 0 {
        Seq::empty()
    } else {
        let before = departures_among(entities.drop_last(), station_id, now);
        match entities.last().trip_update {
            Some(update) => before + departures_in(
                update.stop_time_update,
                trip_id_of(update),
                station_id,
                now,
            ),
            None => before,
        }
    }
}

/// The next departures from a station, by when they are expected.
pub open spec fn next_departures(
    feed: FeedMessageView,
    station_id: Seq<char>,
    limit: int,
    now: FixedDateTime,
) -> Seq<DepartureView> {
    station::first_of(
        order::sorted::<Departure>(departures_among(feed.entity, station_id, now)),
        limit,
    )
}

/// The planned times of the departures from a station lie within the calendar.
pub open spec fn feed_in_calendar(
    feed: FeedMessageView,
    station_id: Seq<char>,
    now: FixedDateTime,
) -> bool {
    forall|i: int, j: int|
        0 <= i < feed.entity.len() && feed.entity[i].trip_update is Some && 0 <= j
            < feed.entity[i].trip_update->0.stop_time_update.len() ==> in_calendar(
            #[trigger] feed.entity[i].trip_update->0.stop_time_update[j],
            station_id,
            now,
        )
}

fn find_event(update: &StopTimeUpdate) -> (r: Option<&StopTimeEvent>)
    ensures
        match r {
            Some(event) => event_at(update.deep_view()) == Some(event.deep_view()),
            None => event_at(update.deep_view()) is None,
        },
{
    match (&update.departure, &update.arrival) {
        (Some(event), _) => Some(event),
        (None, Some(event)) => Some(event),
        (None, None) => None,
    }
}

fn find_expected(event: &StopTimeEvent, now: FixedDateTime) -> (r: FixedDateTime)
    requires
        now.subsec() < 1_000_000_000,
    ensures
        r == expected_at(event.deep_view(), now),
        r.subsec() < 1_000_000_000,
{
    match event.time {
        Some(t) => if t >= 0 {
            match time::timestamp_to_fixed(t as u64) {
                Some(at) => at,
                None => now,
            }
        } else {
            now
        },
        None => now,
    }
}

fn is_about(update: &StopTimeUpdate, station_id: &str) -> (r: bool)
    ensures
        r == (update.deep_view().stop_id == Some(station_id@)),
{
    match &update.stop_id {
        Some(id) => text::same(id.as_str(), station_id),
        None => false,
    }
}

/// The whole minutes in a number of seconds, rounded towards zero.
pub fn whole_minutes(seconds: i32) -> (r: i32)
    ensures
        r == time::toward_zero(seconds as int, 60),
{
    let s: i64 = seconds as i64;
    let m: i64 = if s >= 0 {
        s / 60
    } else {
        -((-s) / 60)
    };
    m as i32
}

fn build_departure(update: &StopTimeUpdate, trip_id: &Option<String>, now: FixedDateTime) -> (r:
    Departure)
    requires
        event_at(update.deep_view()) is Some,
        in_calendar(update.deep_view(), update.deep_view().stop_id->0, now),
        update.deep_view().stop_id is Some,
        now.subsec() < 1_000_000_000,
    ensures
        r.deep_view() == departure_at(update.deep_view(), trip_id.deep_view(), now),
{
    let (expected, delay) = match find_event(update) {
        Some(event) => {
            let delay: i32 = match event.delay {
                Some(seconds) => seconds,
                None => 0,
            };
            (find_expected(event, now), delay)
        },
        None => (now, 0i32),
    };
    let scheduled = match time::move_back(expected, delay) {
        Some(t) => t,
        None => expected,
    };
    let minutes: i32 = whole_minutes(delay);
    Departure {
        trip_id: trip_id.duplicate(),
        line: None,
        service: models::format_service_label(None, None),
        destination: match &update.stop_headsign {
            Some(sign) => sign.clone(),
            None => "Unknown destination".to_owned(),
        },
        mode: None,
        scheduled,
        expected,
        delay_minutes: minutes,
        platform: None,
        status: TripStatus::from_delay(minutes),
    }
}

fn add_departures(out: &mut Vec<Departure>, update: &TripUpdate, station_id: &str, now: FixedDateTime)
    requires
        now.subsec() < 1_000_000_000,
        forall|j: int|
            0 <= j < update.deep_view().stop_time_update.len() ==> in_calendar(
                #[trigger] update.deep_view().stop_time_update[j],
                station_id@,
                now,
            ),
    ensures
        final(out).deep_view() == old(out).deep_view() + departures_in(
            update.deep_view().stop_time_update,
            trip_id_of(update.deep_view()),
            station_id@,
            now,
        ),
{
    let ghost first = out.deep_view();
    let ghost all = update.deep_view().stop_time_update;
    let trip_id = match &update.trip {
        Some(trip) => trip.trip_id.duplicate(),
        None => None,
    };
    let ghost id = trip_id.deep_view();
    let mut i: usize = 0;
    assert(first + departures_in(all.take(0), id, station_id@, now) =~= first);
    while i < update.stop_time_update.len()
        invariant
            i <= update.stop_time_update@.len(),
            all == update.deep_view().stop_time_update,
            id == trip_id.deep_view(),
            now.subsec() < 1_000_000_000,
            forall|j: int|
                0 <= j < all.len() ==> in_calendar(#[trigger] all[j], station_id@, now),
            out.deep_view() == first + departures_in(all.take(i as int), id, station_id@, now),
        decreases update.stop_time_update@.len() - i,
    {
        assert(all.take(i + 1).drop_last() =~= all.take(i as int));
        let stop = &update.stop_time_update[i];
        assert(all.take(i + 1).last() == stop.deep_view());
        assert(all[i as int] == stop.deep_view());
        if is_about(stop, station_id) && find_event(stop).is_some() {
            let departure = build_departure(stop, &trip_id, now);
            let ghost before = out.deep_view();
            let ghost view = departure.deep_view();
            out.push(departure);
            assert(out.deep_view() =~= before.push(view));
            assert(before.push(view) =~= first + departures_in(
                all.take(i + 1),
                id,
                station_id@,
                now,
            ));
        }
        i += 1;
    }
    assert(all.take(i as int) =~= all);
}

/// The next departures from a station at a given time.
pub fn departures_for_station_at(
    feed: &FeedMessage,
    station_id: &str,
    limit: usize,
    now: FixedDateTime,
) -> (r: Vec<Departure>)
    requires
        now.subsec() < 1_000_000_000,
        feed_in_calendar(feed.deep_view(), station_id@, now),
    ensures
        r.deep_view() == next_departures(feed.deep_view(), station_id@, limit as int, now),
{
    let ghost all = feed.deep_view().entity;
    let mut out: Vec<Departure> = Vec::new();
    let mut i: usize = 0;
    assert(out.deep_view() =~= departures_among(all.take(0), station_id@, now));
    while i < feed.entity.len()
        invariant
            i <= feed.entity@.len(),
            all == feed.deep_view().entity,
            now.subsec() < 1_000_000_000,
            feed_in_calendar(feed.deep_view(), station_id@, now),
            out.deep_view() == departures_among(all.take(i as int), station_id@, now),
        decreases feed.entity@.len() - i,
    {
        assert(all.take(i + 1).drop_last() =~= all.take(i as int));
        assert(all.take(i + 1).last() == feed.entity@[i as int].deep_view());
        assert(all[i as int] == feed.entity@[i as int].deep_view());
        match &feed.entity[i].trip_update {
            Some(update) => {
                assert(all[i as int].trip_update == Some(update.deep_view()));
                assert forall|j: int|
                    0 <= j < update.deep_view().stop_time_update.len() implies in_calendar(
                    #[trigger] update.deep_view().stop_time_update[j],
                    station_id@,
                    now,
                ) by {
                    assert(in_calendar(
                        feed.deep_view().entity[i as int].trip_update->0.stop_time_update[j],
                        station_id@,
                        now,
                    ));
                }
                add_departures(&mut out, update, station_id, now);
            },
            None => {},
        }
        i += 1;
    }
    assert(all.take(i as int) =~= all);
    let mut sorted = order::sort(out);
    let ghost ordered = sorted.deep_view();
    sorted.truncate(limit);
    assert(sorted.deep_view() =~= station::first_of(ordered, limit as int));
    sorted
}

fn updates_in_calendar(update: &TripUpdate, station_id: &str, now: FixedDateTime) -> (r: bool)
    requires
        now.subsec() < 1_000_000_000,
    ensures
        r == forall|j: int|
            0 <= j < update.deep_view().stop_time_update.len() ==> in_calendar(
                #[trigger] update.deep_view().stop_time_update[j],
                station_id@,
                now,
            ),
{
    let ghost all = update.deep_view().stop_time_update;
    let mut i: usize = 0;
    while i < update.stop_time_update.len()
        invariant
            i <= update.stop_time_update@.len(),
            all == update.deep_view().stop_time_update,
            now.subsec() < 1_000_000_000,
            forall|j: int| 0 <= j < i ==> in_calendar(#[trigger] all[j], station_id@, now),
        decreases update.stop_time_update@.len() - i,
    {
        let stop = &update.stop_time_update[i];
        assert(all[i as int] == stop.deep_view());
        if is_about(stop, station_id) {
            match find_event(stop) {
                Some(event) => {
                    let at: i64 = find_expected(event, now).seconds();
                    let delay: i64 = match event.delay {
                        Some(seconds) => seconds as i64,
                        None => 0,
                    };
                    let planned: i64 = at - 60 * delay;
                    if planned < MIN_SECONDS || planned > MAX_SECONDS {
                        assert(!in_calendar(all[i as int], station_id@, now));
                        return false;
                    }
                },
                None => {},
            }
        }
        i += 1;
    }
    true
}

/// Whether the planned times of the departures from a station lie within the calendar.
pub fn is_in_calendar(feed: &FeedMessage, station_id: &str, now: FixedDateTime) -> (r: bool)
    requires
        now.subsec() < 1_000_000_000,
    ensures
        r == feed_in_calendar(feed.deep_view(), station_id@, now),
{
    let ghost all = feed.deep_view().entity;
    let mut i: usize = 0;
    while i < feed.entity.len()
        invariant
            i <= feed.entity@.len(),
            all == feed.deep_view().entity,
            now.subsec() < 1_000_000_000,
            forall|k: int, j: int|
                0 <= k < i && all[k].trip_update is Some && 0 <= j
                    < all[k].trip_update->0.stop_time_update.len() ==> in_calendar(
                    #[trigger] all[k].trip_update->0.stop_time_update[j],
                    station_id@,
                    now,
                ),
        decreases feed.entity@.len() - i,
    {
        assert(all[i as int] == feed.entity@[i as int].deep_view());
        match &feed.entity[i].trip_update {
            Some(update) => {
                assert(all[i as int].trip_update == Some(update.deep_view()));
                if !updates_in_calendar(update, station_id, now) {
                    let ghost j = choose|j: int|
                        0 <= j < update.deep_view().stop_time_update.len() && !in_calendar(
                            #[trigger] update.deep_view().stop_time_update[j],
                            station_id@,
                            now,
                        );
                    assert(!in_calendar(
                        all[i as int].trip_update->0.stop_time_update[j],
                        station_id@,
                        now,
                    ));
                    return false;
                }
            },
            None => {},
        }
        i += 1;
    }
    true
}

impl GtfsRtClient {
    /// The next departures from a station, or nothing where a planned time lies outside the
    /// calendar.
    pub fn departures_for_station(feed: &FeedMessage, station_id: &str, limit: usize) -> (r: Option<
        Vec<Departure>,
    >)
        ensures
            exists|now: FixedDateTime|
                {
                    &&& time::zurich_reading(now)
                    &&& #[trigger] feed_in_calendar(feed.deep_view(), station_id@, now) <==> r is Some
                    &&& r matches Some(departures) ==> departures.deep_view() == next_departures(
                        feed.deep_view(),
                        station_id@,
                        limit as int,
                        now,
                    )
                },
    {
        let now = time::now_fixed();
        if is_in_calendar(feed, station_id, now) {
            Some(departures_for_station_at(feed, station_id, limit, now))
        } else {
            None
        }
    }
}

// ---------------------------------------------------------------------------
// Trips
// ---------------------------------------------------------------------------

/// The minutes of delay of an event, if it gives a delay.
pub open spec fn delay_minutes_of(event: Option<StopTimeEventView>) -> Option<i32> {
    match event {
        Some(e) => match e.delay {
            Some(seconds) => Some(time::toward_zero(seconds as int, 60) as i32),
            None => None,
        },
        None => None,
    }
}

/// What is handed out of the data on a stop.
pub open spec fn stop_update_of(update: StopTimeUpdateView) -> StopUpdateView {
    StopUpdateView {
        stop_id: update.stop_id,
        stop_name: update.stop_headsign,
        arrival_delay_minutes: delay_minutes_of(update.arrival),
        departure_delay_minutes: delay_minutes_of(update.departure),
        schedule_relationship: match update.schedule_relationship {
            Some(code) => match stop_time_update::ScheduleRelationship::coded(code as int) {
                Some(relationship) => Some(relationship.name()),
                None => None,
            },
            None => None,
        },
    }
}

/// The larger of a number and another that may be missing.
pub open spec fn larger(a: i32, b: Option<i32>) -> i32 {
    match b {
        Some(n) if n > a => n,
        _ => a,
    }
}

/// The largest delay, in minutes, and no less than zero.
pub open spec fn largest_delay(updates: Seq<StopTimeUpdateView>) -> i32
    decreases updates.len(),
{
    if updates.len() == 0 {
        0
    } else {
        larger(
            larger(
                largest_delay(updates.drop_last()),
                delay_minutes_of(updates.last().arrival),
            ),
            delay_minutes_of(updates.last().departure),
        )
    }
}

/// What is handed out of the data on a trip.
pub open spec fn details_of(update: TripUpdateView, trip_id: Seq<char>) -> TripDetailsView {
    TripDetailsView {
        trip_id,
        current_delay_minutes: largest_delay(update.stop_time_update),
        is_cancelled: match update.trip {
            Some(trip) => match trip.schedule_relationship {
                Some(code) => trip_descriptor::ScheduleRelationship::coded(code as int) == Some(
                    trip_descriptor::ScheduleRelationship::Canceled,
                ),
                None => false,
            },
            None => false,
        },
        platform_changes: Seq::<PlatformChangeView>::empty(),
        stop_updates: Seq::new(
            update.stop_time_update.len(),
            |i: int| stop_update_of(update.stop_time_update[i]),
        ),
    }
}

/// A message about a trip.
pub open spec fn about_trip(entity: FeedEntityView, trip_id: Seq<char>) -> bool {
    entity.trip_update is Some && trip_id_of(entity.trip_update->0) == Some(trip_id)
}

/// The data on a trip, from the first message about it.
pub open spec fn details_in(entities: Seq<FeedEntityView>, trip_id: Seq<char>) -> Option<
    TripDetailsView,
>
    decreases entities.len(),
{
    if entities.len() == 0 {
        None
    } else if about_trip(entities[0], trip_id) {
        Some(details_of(entities[0].trip_update->0, trip_id))
    } else {
        details_in(entities.drop_first(), trip_id)
    }
}

fn event_minutes(event: &Option<StopTimeEvent>) -> (r: Option<i32>)
    ensures
        r == delay_minutes_of(event.deep_view()),
{
    match event {
        Some(e) => match e.delay {
            Some(seconds) => Some(whole_minutes(seconds)),
            None => None,
        },
        None => None,
    }
}

fn build_stop_update(update: &StopTimeUpdate) -> (r: StopUpdate)
    ensures
        r.deep_view() == stop_update_of(update.deep_view()),
{
    StopUpdate {
        stop_id: update.stop_id.duplicate(),
        stop_name: update.stop_headsign.duplicate(),
        arrival_delay_minutes: event_minutes(&update.arrival),
        departure_delay_minutes: event_minutes(&update.departure),
        schedule_relationship: match update.schedule_relationship {
            Some(code) => match stop_time_update::ScheduleRelationship::from_code(code) {
                Some(relationship) => Some(relationship.as_str().to_owned()),
                None => None,
            },
            None => None,
        },
    }
}

fn take_larger(a: i32, b: Option<i32>) -> (r: i32)
    ensures
        r == larger(a, b),
{
    match b {
        Some(n) => if n > a {
            n
        } else {
            a
        },
        None => a,
    }
}

fn build_details(update: &TripUpdate, trip_id: &str) -> (r: TripDetails)
    ensures
        r.deep_view() == details_of(update.deep_view(), trip_id@),
{
    let ghost all = update.deep_view().stop_time_update;
    let mut stop_updates: Vec<StopUpdate> = Vec::new();
    let mut largest: i32 = 0;
    let mut i: usize = 0;
    while i < update.stop_time_update.len()
        invariant
            i <= update.stop_time_update@.len(),
            all == update.deep_view().stop_time_update,
            largest == largest_delay(all.take(i as int)),
            stop_updates@.len() == i,
            forall|k: int|
                0 <= k < i ==> (#[trigger] stop_updates@[k]).deep_view() == stop_update_of(all[k]),
        decreases update.stop_time_update@.len() - i,
    {
        let stop = &update.stop_time_update[i];
        assert(all.take(i + 1).drop_last() =~= all.take(i as int));
        assert(all.take(i + 1).last() == stop.deep_view());
        assert(all[i as int] == stop.deep_view());
        largest = take_larger(largest, event_minutes(&stop.arrival));
        largest = take_larger(largest, event_minutes(&stop.departure));
        stop_updates.push(build_stop_update(stop));
        i += 1;
    }
    assert(all.take(i as int) =~= all);
    let is_cancelled = match &update.trip {
        Some(trip) => match trip.schedule_relationship {
            Some(code) => match trip_descriptor::ScheduleRelationship::from_code(code) {
                Some(relationship) => relationship
                    == trip_descriptor::ScheduleRelationship::Canceled,
                None => false,
            },
            None => false,
        },
        None => false,
    };
    let details = TripDetails {
        trip_id: trip_id.to_owned(),
        current_delay_minutes: largest,
        is_cancelled,
        platform_changes: Vec::new(),
        stop_updates,
    };
    assert(details.deep_view().platform_changes =~= Seq::<PlatformChangeView>::empty());
    assert(details.deep_view().stop_updates =~= details_of(
        update.deep_view(),
        trip_id@,
    ).stop_updates);
    details
}

impl GtfsRtClient {
    /// The data on a trip, from the first message about it.
    pub fn trip_details(feed: &FeedMessage, trip_id: &str) -> (r: Option<TripDetails>)
        ensures
            r.deep_view() == details_in(feed.deep_view().entity, trip_id@),
    {
        let ghost all = feed.deep_view().entity;
        let mut i: usize = 0;
        assert(all.skip(0) =~= all);
        while i < feed.entity.len()
            invariant
                i <= feed.entity@.len(),
                all == feed.deep_view().entity,
                details_in(all, trip_id@) == details_in(all.skip(i as int), trip_id@),
            decreases feed.entity@.len() - i,
        {
            assert(all.skip(i as int)[0] == feed.entity@[i as int].deep_view());
            assert(all.skip(i as int).drop_first() =~= all.skip(i + 1));
            match &feed.entity[i].trip_update {
                Some(update) => {
                    let found = match &update.trip {
                        Some(trip) => match &trip.trip_id {
                            Some(id) => text::same(id.as_str(), trip_id),
                            None => false,
                        },
                        None => false,
                    };
                    if found {
                        return Some(build_details(update, trip_id));
                    }
                },
                None => {},
            }
            i += 1;
        }
        None
    }
}

// ---------------------------------------------------------------------------
// Disruptions
// ---------------------------------------------------------------------------

/// The routes that an alert concerns.
pub open spec fn routes_of(selectors: Seq<EntitySelectorView>) -> Seq<Seq<char>>
    decreases selectors.len(),
{
    if selectors.len() == 0 {
        Seq::empty()
    } else {
        match selectors.last().route_id {
            Some(id) => routes_of(selectors.drop_last()).push(id),
            None => routes_of(selectors.drop_last()),
        }
    }
}

/// The stops that an alert concerns.
pub open spec fn stops_of(selectors: Seq<EntitySelectorView>) -> Seq<Seq<char>>
    decreases selectors.len(),
{
    if selectors.len() == 0 {
        Seq::empty()
    } else {
        match selectors.last().stop_id {
            Some(id) => stops_of(selectors.drop_last()).push(id),
            None => stops_of(selectors.drop_last()),
        }
    }
}

/// Some name holds the filter, without regard to case; without a filter, all do.
pub open spec fn passes(names: Seq<Seq<char>>, filter: Option<Seq<char>>) -> bool {
    match filter {
        Some(f) => exists|i: int|
            0 <= i < names.len() && text::contains(
                text::lowered(#[trigger] names[i]),
                text::lowered(f),
            ),
        None => true,
    }
}

/// The first text of a text in several languages.
pub open spec fn first_text(versions: Seq<TranslationView>) -> Option<Seq<char>>
    decreases versions.len(),
{
    if versions.len() == 0 {
        None
    } else if versions[0].text is Some {
        versions[0].text
    } else {
        first_text(versions.drop_first())
    }
}

/// The first text of a text in several languages, if there is one.
pub open spec fn text_of(value: Option<TranslatedStringView>) -> Option<Seq<char>> {
    match value {
        Some(t) => first_text(t.translation),
        None => None,
    }
}

/// The time that a timestamp denotes, if there is one.
pub open spec fn time_of(timestamp: Option<u64>) -> Option<FixedDateTime> {
    match timestamp {
        Some(t) => time::timestamp_value(t),
        None => None,
    }
}

/// The first span of time of an alert.
pub open spec fn period_of(periods: Seq<TimeRangeView>) -> (Option<u64>, Option<u64>) {
    if periods.len() > 0 {
        (periods[0].start, periods[0].end)
    } else {
        (None, None)
    }
}

/// The disruption that an alert describes, under a reference.
pub open spec fn disruption_of(alert: AlertView, id: Seq<char>) -> DisruptionView {
    DisruptionView {
        id,
        affected_lines: routes_of(alert.informed_entity),
        affected_stations: stops_of(alert.informed_entity),
        reason: match alert.cause {
            Some(code) => match Cause::coded(code as int) {
                Some(cause) => Some(cause.name()),
                None => None,
            },
            None => None,
        },
        description: tags::or_else(text_of(alert.description_text), text_of(alert.header_text)),
        starts_at: time_of(period_of(alert.active_period).0),
        ends_at: time_of(period_of(alert.active_period).1),
        alternatives: Seq::<Seq<char>>::empty(),
    }
}

/// An alert that concerns the line and the station that are asked for.
pub open spec fn matches_filters(
    alert: AlertView,
    line: Option<Seq<char>>,
    station: Option<Seq<char>>,
) -> bool {
    passes(routes_of(alert.informed_entity), line) && passes(
        stops_of(alert.informed_entity),
        station,
    )
}

/// The disruption that a message describes, if it concerns what is asked for. A message
/// without a reference goes by `fresh`.
pub open spec fn disruption_in(
    entity: FeedEntityView,
    line: Option<Seq<char>>,
    station: Option<Seq<char>>,
    fresh: Seq<char>,
) -> Option<DisruptionView> {
    match entity.alert {
        Some(alert) if matches_filters(alert, line, station) => Some(
            disruption_of(
                alert,
                match entity.id {
                    Some(id) => id,
                    None => fresh,
                },
            ),
        ),
        _ => None,
    }
}

/// The disruptions in messages, with an identifier at hand for each message.
pub open spec fn disruptions_in(
    entities: Seq<FeedEntityView>,
    line: Option<Seq<char>>,
    station: Option<Seq<char>>,
    ids: Seq<Seq<char>>,
) -> Seq<DisruptionView>
    decreases entities.len(),
{
    if entities.len() == 0 {
        Seq::empty()
    } else {
        let before = disruptions_in(entities.drop_last(), line, station, ids);
        match disruption_in(entities.last(), line, station, ids[entities.len() - 1]) {
            Some(disruption) => before.push(disruption),
            None => before,
        }
    }
}

fn collect_routes(selectors: &Vec<EntitySelector>) -> (r: Vec<String>)
    ensures
        r.deep_view() == routes_of(selectors.deep_view()),
{
    let ghost all = selectors.deep_view();
    let mut out: Vec<String> = Vec::new();
    let mut i: usize = 0;
    assert(out.deep_view() =~= routes_of(all.take(0)));
    while i < selectors.len()
        invariant
            i <= selectors@.len(),
            all == selectors.deep_view(),
            out.deep_view() == routes_of(all.take(i as int)),
        decreases selectors@.len() - i,
    {
        assert(all.take(i + 1).drop_last() =~= all.take(i as int));
        assert(all.take(i + 1).last() == selectors@[i as int].deep_view());
        match &selectors[i].route_id {
            Some(id) => {
                let ghost before = out.deep_view();
                out.push(id.clone());
                assert(out.deep_view() =~= before.push(id@));
            },
            None => {},
        }
        i += 1;
    }
    assert(all.take(i as int) =~= all);
    out
}

fn collect_stops(selectors: &Vec<EntitySelector>) -> (r: Vec<String>)
    ensures
        r.deep_view() == stops_of(selectors.deep_view()),
{
    let ghost all = selectors.deep_view();
    let mut out: Vec<String> = Vec::new();
    let mut i: usize = 0;
    assert(out.deep_view() =~= stops_of(all.take(0)));
    while i < selectors.len()
        invariant
            i <= selectors@.len(),
            all == selectors.deep_view(),
            out.deep_view() == stops_of(all.take(i as int)),
        decreases selectors@.len() - i,
    {
        assert(all.take(i + 1).drop_last() =~= all.take(i as int));
        assert(all.take(i + 1).last() == selectors@[i as int].deep_view());
        match &selectors[i].stop_id {
            Some(id) => {
                let ghost before = out.deep_view();
                out.push(id.clone());
                assert(out.deep_view() =~= before.push(id@));
            },
            None => {},
        }
        i += 1;
    }
    assert(all.take(i as int) =~= all);
    out
}

/// Whether some name holds the filter.
fn check_filter(names: &Vec<String>, filter: Option<&str>) -> (r: bool)
    ensures
        r == passes(names.deep_view(), filter.deep_view()),
{
    match filter {
        Some(f) => {
            let lower = text::to_lower(f);
            let mut i: usize = 0;
            while i < names.len()
                invariant
                    i <= names@.len(),
                    lower@ == text::lowered(f@),
                    filter.deep_view() == Some(f@),
                    forall|k: int|
                        0 <= k < i ==> !text::contains(
                            text::lowered(#[trigger] names.deep_view()[k]),
                            lower@,
                        ),
                decreases names@.len() - i,
            {
                let name = text::to_lower(names[i].as_str());
                assert(names.deep_view()[i as int] == names@[i as int]@);
                if text::has(name.as_str(), lower.as_str()) {
                    return true;
                }
                i += 1;
            }
            false
        },
        None => true,
    }
}

/// The first text of a text in several languages.
pub fn translated_text(value: &Option<TranslatedString>) -> (r: Option<String>)
    ensures
        r.deep_view() == text_of(value.deep_view()),
{
    match value {
        Some(t) => {
            let ghost all = t.translation.deep_view();
            let mut i: usize = 0;
            assert(all.skip(0) =~= all);
            while i < t.translation.len()
                invariant
                    i <= t.translation@.len(),
                    all == t.translation.deep_view(),
                    first_text(all) == first_text(all.skip(i as int)),
                    value.deep_view() == Some(t.deep_view()),
                decreases t.translation@.len() - i,
            {
                assert(all.skip(i as int)[0] == t.translation@[i as int].deep_view());
                assert(all.skip(i as int).drop_first() =~= all.skip(i + 1));
                if t.translation[i].text.is_some() {
                    return t.translation[i].text.duplicate();
                }
                i += 1;
            }
            None
        },
        None => None,
    }
}

fn build_time(timestamp: Option<u64>) -> (r: Option<FixedDateTime>)
    ensures
        r == time_of(timestamp),
{
    match timestamp {
        Some(t) => time::timestamp_to_fixed(t),
        None => None,
    }
}

fn find_period(periods: &Vec<TimeRange>) -> (r: (Option<u64>, Option<u64>))
    ensures
        r == period_of(periods.deep_view()),
{
    if periods.len() > 0 {
        (periods[0].start, periods[0].end)
    } else {
        (None, None)
    }
}

/// The disruption that a message describes, if it concerns what is asked for. A message
/// without a reference goes by `fresh`.
pub fn build_disruption(
    entity: &FeedEntity,
    line_filter: Option<&str>,
    station_filter: Option<&str>,
    fresh: String,
) -> (r: Option<Disruption>)
    ensures
        r.deep_view() == disruption_in(
            entity.deep_view(),
            line_filter.deep_view(),
            station_filter.deep_view(),
            fresh@,
        ),
{
    match &entity.alert {
        Some(alert) => {
            let affected_lines = collect_routes(&alert.informed_entity);
            let affected_stations = collect_stops(&alert.informed_entity);
            if !check_filter(&affected_lines, line_filter) || !check_filter(
                &affected_stations,
                station_filter,
            ) {
                return None;
            }
            let id = match &entity.id {
                Some(id) => id.clone(),
                None => fresh,
            };
            let reason = match alert.cause {
                Some(code) => match Cause::from_code(code) {
                    Some(cause) => Some(cause.as_str().to_owned()),
                    None => None,
                },
                None => None,
            };
            let text = translated_text(&alert.description_text);
            let description = if text.is_some() {
                text
            } else {
                translated_text(&alert.header_text)
            };
            let (start, end) = find_period(&alert.active_period);
            let disruption = Disruption {
                id,
                affected_lines,
                affected_stations,
                reason,
                description,
                starts_at: build_time(start),
                ends_at: build_time(end),
                alternatives: Vec::new(),
            };
            assert(disruption.deep_view().alternatives =~= Seq::<Seq<char>>::empty());
            Some(disruption)
        },
        None => None,
    }
}

proof fn lemma_more_ids(
    entities: Seq<FeedEntityView>,
    line: Option<Seq<char>>,
    station: Option<Seq<char>>,
    a: Seq<Seq<char>>,
    b: Seq<Seq<char>>,
)
    requires
        entities.len() <= a.len(),
        entities.len() <= b.len(),
        forall|i: int| 0 <= i < entities.len() ==> a[i] == b[i],
    ensures
        disruptions_in(entities, line, station, a) == disruptions_in(entities, line, station, b),
    decreases entities.len(),
{
    if entities.len() > 0 {
        lemma_more_ids(entities.drop_last(), line, station, a, b);
    }
}

/// Identifiers at hand for messages: an alert without a reference gets one in the notation
/// of a UUID.
pub open spec fn fresh_for(entities: Seq<FeedEntityView>, ids: Seq<Seq<char>>) -> bool {
    &&& ids.len() == entities.len()
    &&& forall|i: int|
        0 <= i < entities.len() && (#[trigger] entities[i]).id is None && entities[i].alert is Some
            ==> identifier::uuid_shaped(ids[i])
}

impl GtfsRtClient {
    /// The disruptions in a feed that concern what is asked for. One without a reference goes
    /// by a random one.
    pub fn disruptions(
        feed: &FeedMessage,
        line_filter: Option<&str>,
        station_filter: Option<&str>,
    ) -> (r: Vec<Disruption>)
        ensures
            exists|ids: Seq<Seq<char>>|
                r.deep_view() == #[trigger] disruptions_in(
                    feed.deep_view().entity,
                    line_filter.deep_view(),
                    station_filter.deep_view(),
                    ids,
                ) && fresh_for(feed.deep_view().entity, ids),
    {
        let ghost all = feed.deep_view().entity;
        let ghost line = line_filter.deep_view();
        let ghost station = station_filter.deep_view();
        let ghost mut ids: Seq<Seq<char>> = Seq::empty();
        let mut out: Vec<Disruption> = Vec::new();
        let mut i: usize = 0;
        assert(out.deep_view() =~= disruptions_in(all.take(0), line, station, ids));
        while i < feed.entity.len()
            invariant
                i <= feed.entity@.len(),
                all == feed.deep_view().entity,
                line == line_filter.deep_view(),
                station == station_filter.deep_view(),
                fresh_for(all.take(i as int), ids),
                out.deep_view() == disruptions_in(all.take(i as int), line, station, ids),
            decreases feed.entity@.len() - i,
        {
            let entity = &feed.entity[i];
            let fresh = if entity.id.is_none() && entity.alert.is_some() {
                identifier::new_identifier()
            } else {
                String::new()
            };
            proof {
                let longer = ids.push(fresh@);
                lemma_more_ids(all.take(i as int), line, station, ids, longer);
                ids = longer;
                assert(all.take(i + 1).drop_last() =~= all.take(i as int));
                assert(all.take(i + 1).last() == entity.deep_view());
                assert forall|k: int|
                    0 <= k < i + 1 && (#[trigger] all.take(i + 1)[k]).id is None && all.take(
                        i + 1,
                    )[k].alert is Some implies identifier::uuid_shaped(ids[k]) by {
                    if k < i {
                        assert(all.take(i as int)[k] == all.take(i + 1)[k]);
                    }
                }
            }
            match build_disruption(entity, line_filter, station_filter, fresh) {
                Some(disruption) => {
                    let ghost before = out.deep_view();
                    let ghost view = disruption.deep_view();
                    out.push(disruption);
                    assert(out.deep_view() =~= before.push(view));
                },
                None => {},
            }
            i += 1;
        }
        assert(all.take(i as int) =~= all);
        out
    }
}

/// The next departures are in the order in which they are expected, and there are no more
/// of them than asked for.
pub proof fn law_next_departures_are_in_order(
    feed: FeedMessageView,
    station_id: Seq<char>,
    limit: nat,
    now: FixedDateTime,
)
    ensures
        ({
            let departures = next_departures(feed, station_id, limit as int, now);
            &&& departures.len() <= limit
            &&& forall|i: int, j: int|
                0 <= i < j < departures.len() ==> (#[trigger] departures[i]).expected.not_after(
                    (#[trigger] departures[j]).expected,
                )
        }),
{
    let found = departures_among(feed.entity, station_id, now);
    let all = order::sorted::<Departure>(found);
    assert forall|i: int, j: int| 0 <= i < j < all.len() implies (
    #[trigger] all[i]).expected.not_after((#[trigger] all[j]).expected) by {
        order::law_sorted_is_in_order::<Departure>(found, i, j);
    }
}

/// The delay of a trip is no less than that of any of its stops, and is not negative.
pub proof fn law_trip_delay_is_largest(updates: Seq<StopTimeUpdateView>, i: int)
    requires
        0 <= i < updates.len(),
    ensures
        largest_delay(updates) >= 0,
        delay_minutes_of(updates[i].arrival) matches Some(m) ==> m <= largest_delay(updates),
        delay_minutes_of(updates[i].departure) matches Some(m) ==> m <= largest_delay(updates),
    decreases updates.len(),
{
    reveal_with_fuel(largest_delay, 2);
    if i < updates.len() - 1 {
        law_trip_delay_is_largest(updates.drop_last(), i);
        assert(updates.drop_last()[i] == updates[i]);
    } else if updates.len() > 1 {
        law_trip_delay_is_largest(updates.drop_last(), 0);
    }
}

/// A disruption that is handed out concerns the line and the station that are asked for.
pub proof fn law_disruptions_match_the_filters(
    entities: Seq<FeedEntityView>,
    line: Option<Seq<char>>,
    station: Option<Seq<char>>,
    ids: Seq<Seq<char>>,
    i: int,
)
    requires
        0 <= i < disruptions_in(entities, line, station, ids).len(),
    ensures
        passes(disruptions_in(entities, line, station, ids)[i].affected_lines, line),
        passes(disruptions_in(entities, line, station, ids)[i].affected_stations, station),
    decreases entities.len(),
{
    let before = disruptions_in(entities.drop_last(), line, station, ids);
    if i < before.len() {
        law_disruptions_match_the_filters(entities.drop_last(), line, station, ids, i);
    }
}

// ---------------------------------------------------------------------------
// What the details of a trip say
// ---------------------------------------------------------------------------

/// Whole minutes in a number of seconds: what is left over is less than a minute and has
/// the sign of the seconds.
pub open spec fn minutes_in(minutes: int, seconds: int) -> bool {
    if seconds >= 0 {
        60 * minutes <= seconds < 60 * minutes + 60
    } else {
        60 * minutes - 60 < seconds <= 60 * minutes
    }
}

/// The minutes that are told of an event are those of its delay, if it has one.
pub open spec fn tells_delay(told: Option<i32>, event: Option<StopTimeEventView>) -> bool {
    if event is Some && event->0.delay is Some {
        told is Some && minutes_in(told->0 as int, event->0.delay->0 as int)
    } else {
        told is None
    }
}

/// A trip is told to be cancelled exactly if its schedule relationship is given by the
/// code 3. Each stop of the update has its place among those that are told of, with the
/// whole minutes of its delays.
pub proof fn law_details_tell_of_the_update(update: TripUpdateView, trip_id: Seq<char>)
    ensures
        ({
            let d = details_of(update, trip_id);
            &&& d.trip_id == trip_id
            &&& d.is_cancelled <==> update.trip is Some
                && update.trip->0.schedule_relationship == Some(3i32)
            &&& d.platform_changes.len() == 0
            &&& d.stop_updates.len() == update.stop_time_update.len()
            &&& forall|i: int|
                #![trigger d.stop_updates[i]]
                0 <= i < d.stop_updates.len() ==> {
                    let told = d.stop_updates[i];
                    let stop = update.stop_time_update[i];
                    &&& told.stop_id == stop.stop_id
                    &&& told.stop_name == stop.stop_headsign
                    &&& tells_delay(told.arrival_delay_minutes, stop.arrival)
                    &&& tells_delay(told.departure_delay_minutes, stop.departure)
                    &&& stop.schedule_relationship is None ==> told.schedule_relationship is None
                    &&& stop.schedule_relationship == Some(0i32) ==> told.schedule_relationship
                        == Some("Scheduled"@)
                    &&& stop.schedule_relationship == Some(1i32) ==> told.schedule_relationship
                        == Some("Skipped"@)
                    &&& stop.schedule_relationship == Some(2i32) ==> told.schedule_relationship
                        == Some("NoData"@)
                    &&& stop.schedule_relationship == Some(3i32) ==> told.schedule_relationship
                        == Some("Unscheduled"@)
                    &&& stop.schedule_relationship is Some && !(0
                        <= stop.schedule_relationship->0 <= 3) ==> told.schedule_relationship is None
                }
        }),
{
    let d = details_of(update, trip_id);
    assert forall|i: int| #![trigger d.stop_updates[i]] 0 <= i < d.stop_updates.len() implies {
        let told = d.stop_updates[i];
        let stop = update.stop_time_update[i];
        &&& tells_delay(told.arrival_delay_minutes, stop.arrival)
        &&& tells_delay(told.departure_delay_minutes, stop.departure)
    } by {
        lemma_tells_delay(update.stop_time_update[i].arrival);
        lemma_tells_delay(update.stop_time_update[i].departure);
    }
}

proof fn lemma_tells_delay(event: Option<StopTimeEventView>)
    ensures
        tells_delay(delay_minutes_of(event), event),
{
}

/// The delay of a trip is the largest one that is told of its stops, or zero where none
/// is larger than that.
pub proof fn law_delay_is_told_of_a_stop(update: TripUpdateView, trip_id: Seq<char>)
    ensures
        ({
            let d = details_of(update, trip_id);
            &&& d.current_delay_minutes >= 0
            &&& forall|i: int|
                #![trigger d.stop_updates[i]]
                0 <= i < d.stop_updates.len() ==> {
                    let told = d.stop_updates[i];
                    &&& told.arrival_delay_minutes is Some ==> told.arrival_delay_minutes->0
                        <= d.current_delay_minutes
                    &&& told.departure_delay_minutes is Some ==> told.departure_delay_minutes->0
                        <= d.current_delay_minutes
                }
            &&& d.current_delay_minutes > 0 ==> exists|i: int|
                #![trigger d.stop_updates[i]]
                0 <= i < d.stop_updates.len() && (d.stop_updates[i].arrival_delay_minutes == Some(
                    d.current_delay_minutes,
                ) || d.stop_updates[i].departure_delay_minutes == Some(d.current_delay_minutes))
        }),
{
    let d = details_of(update, trip_id);
    let all = update.stop_time_update;
    assert forall|i: int| #![trigger d.stop_updates[i]] 0 <= i < d.stop_updates.len() implies {
        let told = d.stop_updates[i];
        &&& told.arrival_delay_minutes is Some ==> told.arrival_delay_minutes->0
            <= d.current_delay_minutes
        &&& told.departure_delay_minutes is Some ==> told.departure_delay_minutes->0
            <= d.current_delay_minutes
    } by {
        law_trip_delay_is_largest(all, i);
    }
    lemma_largest_delay_is_one(all);
    if d.current_delay_minutes > 0 {
        let i = choose|i: int|
            #![trigger all[i]]
            0 <= i < all.len() && (delay_minutes_of(all[i].arrival) == Some(largest_delay(all))
                || delay_minutes_of(all[i].departure) == Some(largest_delay(all)));
        assert(d.stop_updates[i] == stop_update_of(all[i]));
    }
}

proof fn lemma_largest_delay_is_one(updates: Seq<StopTimeUpdateView>)
    ensures
        largest_delay(updates) >= 0,
        largest_delay(updates) > 0 ==> exists|i: int|
            #![trigger updates[i]]
            0 <= i < updates.len() && (delay_minutes_of(updates[i].arrival) == Some(
                largest_delay(updates),
            ) || delay_minutes_of(updates[i].departure) == Some(largest_delay(updates))),
    decreases updates.len(),
{
    if updates.len() > 0 {
        let before = updates.drop_last();
        let n = updates.len() - 1;
        lemma_largest_delay_is_one(before);
        if largest_delay(updates) > 0 {
            if largest_delay(updates) == largest_delay(before) {
                let i = choose|i: int|
                    #![trigger before[i]]
                    0 <= i < before.len() && (delay_minutes_of(before[i].arrival) == Some(
                        largest_delay(before),
                    ) || delay_minutes_of(before[i].departure) == Some(largest_delay(before)));
                assert(updates[i] == before[i]);
            } else {
                assert(updates[n] == updates.last());
            }
        }
    }
}

/// The details of a trip are those of the first update in the feed that names the trip, and
/// there are none exactly if no update does.
pub proof fn law_details_are_of_the_named_trip(entities: Seq<FeedEntityView>, trip_id: Seq<char>)
    ensures
        match details_in(entities, trip_id) {
            None => forall|i: int|
                #![trigger entities[i]]
                0 <= i < entities.len() && entities[i].trip_update is Some
                    && entities[i].trip_update->0.trip is Some
                    ==> entities[i].trip_update->0.trip->0.trip_id != Some(trip_id),
            Some(d) => exists|i: int|
                #![trigger entities[i]]
                {
                    &&& 0 <= i < entities.len()
                    &&& entities[i].trip_update is Some
                    &&& entities[i].trip_update->0.trip is Some
                    &&& entities[i].trip_update->0.trip->0.trip_id == Some(trip_id)
                    &&& d == details_of(entities[i].trip_update->0, trip_id)
                    &&& forall|j: int|
                        #![trigger entities[j]]
                        0 <= j < i && entities[j].trip_update is Some
                            && entities[j].trip_update->0.trip is Some
                            ==> entities[j].trip_update->0.trip->0.trip_id != Some(trip_id)
                },
        },
    decreases entities.len(),
{
    if entities.len() > 0 {
        let rest = entities.drop_first();
        let first = entities[0];
        let named = first.trip_update is Some && first.trip_update->0.trip is Some
            && first.trip_update->0.trip->0.trip_id == Some(trip_id);
        if !named {
            law_details_are_of_the_named_trip(rest, trip_id);
            match details_in(rest, trip_id) {
                None => {
                    assert forall|i: int|
                        #![trigger entities[i]]
                        0 <= i < entities.len() && entities[i].trip_update is Some
                            && entities[i].trip_update->0.trip is Some implies
                        entities[i].trip_update->0.trip->0.trip_id != Some(trip_id) by {
                        if i > 0 {
                            assert(entities[i] == rest[i - 1]);
                        }
                    }
                },
                Some(d) => {
                    let k = choose|k: int|
                        #![trigger rest[k]]
                        {
                            &&& 0 <= k < rest.len()
                            &&& rest[k].trip_update is Some
                            &&& rest[k].trip_update->0.trip is Some
                            &&& rest[k].trip_update->0.trip->0.trip_id == Some(trip_id)
                            &&& d == details_of(rest[k].trip_update->0, trip_id)
                            &&& forall|j: int|
                                #![trigger rest[j]]
                                0 <= j < k && rest[j].trip_update is Some
                                    && rest[j].trip_update->0.trip is Some
                                    ==> rest[j].trip_update->0.trip->0.trip_id != Some(trip_id)
                        };
                    assert(entities[k + 1] == rest[k]);
                    assert forall|j: int|
                        #![trigger entities[j]]
                        0 <= j < k + 1 && entities[j].trip_update is Some
                            && entities[j].trip_update->0.trip is Some implies
                        entities[j].trip_update->0.trip->0.trip_id != Some(trip_id) by {
                        if j > 0 {
                            assert(entities[j] == rest[j - 1]);
                        }
                    }
                },
            }
        } else {
            assert(entities[0] == first);
        }
    }
}

// ---------------------------------------------------------------------------
// What a disruption tells of an alert
// ---------------------------------------------------------------------------

/// Some informed entity names a stop whose reference holds the text, whatever the case of
/// the letters.
pub open spec fn informs_of_stop(alert: AlertView, part: Seq<char>) -> bool {
    exists|k: int|
        #![trigger alert.informed_entity[k]]
        0 <= k < alert.informed_entity.len() && alert.informed_entity[k].stop_id is Some
            && text::contains(
            text::lowered(alert.informed_entity[k].stop_id->0),
            text::lowered(part),
        )
}

/// Some informed entity names a route whose reference holds the text, whatever the case of
/// the letters.
pub open spec fn informs_of_route(alert: AlertView, part: Seq<char>) -> bool {
    exists|k: int|
        #![trigger alert.informed_entity[k]]
        0 <= k < alert.informed_entity.len() && alert.informed_entity[k].route_id is Some
            && text::contains(
            text::lowered(alert.informed_entity[k].route_id->0),
            text::lowered(part),
        )
}

/// The text is the first one that is given in any language.
pub open spec fn first_given(found: Option<Seq<char>>, value: Option<TranslatedStringView>) -> bool {
    if value is None {
        found is None
    } else {
        let versions = value->0.translation;
        match found {
            Some(t) => exists|k: int|
                #![trigger versions[k]]
                0 <= k < versions.len() && versions[k].text == Some(t) && forall|j: int|
                    #![trigger versions[j]]
                    0 <= j < k ==> versions[j].text is None,
            None => forall|k: int|
                #![trigger versions[k]]
                0 <= k < versions.len() ==> versions[k].text is None,
        }
    }
}

/// A disruption tells of an alert: all the routes and stops that its informed entities
/// name, whatever else an entity names, and no others; its cause; its text, or else its
/// heading; and its first span of time.
pub open spec fn tells_of(d: DisruptionView, alert: AlertView) -> bool {
    &&& forall|s: Seq<char>| #[trigger]
        d.affected_stations.contains(s) <==> exists|k: int|
            #![trigger alert.informed_entity[k]]
            0 <= k < alert.informed_entity.len() && alert.informed_entity[k].stop_id == Some(s)
    &&& forall|s: Seq<char>| #[trigger]
        d.affected_lines.contains(s) <==> exists|k: int|
            #![trigger alert.informed_entity[k]]
            0 <= k < alert.informed_entity.len() && alert.informed_entity[k].route_id == Some(s)
    &&& alert.cause is None ==> d.reason is None
    &&& alert.cause == Some(1i32) ==> d.reason == Some("UnknownCause"@)
    &&& alert.cause == Some(2i32) ==> d.reason == Some("OtherCause"@)
    &&& alert.cause == Some(3i32) ==> d.reason == Some("TechnicalProblem"@)
    &&& alert.cause == Some(4i32) ==> d.reason == Some("Strike"@)
    &&& alert.cause == Some(5i32) ==> d.reason == Some("Demonstration"@)
    &&& alert.cause == Some(6i32) ==> d.reason == Some("Accident"@)
    &&& alert.cause == Some(7i32) ==> d.reason == Some("Holiday"@)
    &&& alert.cause == Some(8i32) ==> d.reason == Some("Weather"@)
    &&& alert.cause == Some(9i32) ==> d.reason == Some("Maintenance"@)
    &&& alert.cause == Some(10i32) ==> d.reason == Some("Construction"@)
    &&& alert.cause == Some(11i32) ==> d.reason == Some("PoliceActivity"@)
    &&& alert.cause == Some(12i32) ==> d.reason == Some("MedicalEmergency"@)
    &&& alert.cause is Some && !(1 <= alert.cause->0 <= 12) ==> d.reason is None
    &&& first_given(d.description, alert.description_text) || (first_given(
        None,
        alert.description_text,
    ) && first_given(d.description, alert.header_text))
    &&& d.starts_at == if alert.active_period.len() > 0 && alert.active_period[0].start is Some {
        time::timestamp_value(alert.active_period[0].start->0)
    } else {
        None
    }
    &&& d.ends_at == if alert.active_period.len() > 0 && alert.active_period[0].end is Some {
        time::timestamp_value(alert.active_period[0].end->0)
    } else {
        None
    }
    &&& d.alternatives.len() == 0
}

proof fn lemma_first_text(versions: Seq<TranslationView>)
    ensures
        match first_text(versions) {
            Some(t) => exists|k: int|
                #![trigger versions[k]]
                0 <= k < versions.len() && versions[k].text == Some(t) && forall|j: int|
                    #![trigger versions[j]]
                    0 <= j < k ==> versions[j].text is None,
            None => forall|k: int|
                #![trigger versions[k]]
                0 <= k < versions.len() ==> versions[k].text is None,
        },
    decreases versions.len(),
{
    if versions.len() > 0 {
        let first = versions[0];
        if first.text is None {
            let rest = versions.drop_first();
            lemma_first_text(rest);
            match first_text(rest) {
                Some(t) => {
                    let k = choose|k: int|
                        #![trigger rest[k]]
                        0 <= k < rest.len() && rest[k].text == Some(t) && forall|j: int|
                            #![trigger rest[j]]
                            0 <= j < k ==> rest[j].text is None;
                    assert(versions[k + 1] == rest[k]);
                    assert forall|j: int| #![trigger versions[j]] 0 <= j < k + 1 implies
                        versions[j].text is None by {
                        if j > 0 {
                            assert(versions[j] == rest[j - 1]);
                        }
                    }
                },
                None => {
                    assert forall|k: int| #![trigger versions[k]] 0 <= k < versions.len() implies
                        versions[k].text is None by {
                        if k > 0 {
                            assert(versions[k] == rest[k - 1]);
                        }
                    }
                },
            }
        }
    }
}

proof fn lemma_first_given(value: Option<TranslatedStringView>)
    ensures
        first_given(text_of(value), value),
{
    if value is Some {
        lemma_first_text(value->0.translation);
    }
}

proof fn lemma_stops_of(selectors: Seq<EntitySelectorView>, s: Seq<char>)
    ensures
        stops_of(selectors).contains(s) <==> exists|k: int|
            #![trigger selectors[k]]
            0 <= k < selectors.len() && selectors[k].stop_id == Some(s),
    decreases selectors.len(),
{
    if selectors.len() > 0 {
        let before = selectors.drop_last();
        let n = selectors.len() - 1;
        lemma_stops_of(before, s);
        let (a, b) = (stops_of(before), stops_of(selectors));
        if exists|k: int|
            #![trigger selectors[k]]
            0 <= k < selectors.len() && selectors[k].stop_id == Some(s) {
            let k = choose|k: int|
                #![trigger selectors[k]]
                0 <= k < selectors.len() && selectors[k].stop_id == Some(s);
            if k < n {
                assert(before[k] == selectors[k]);
                let m = choose|m: int| 0 <= m < a.len() && a[m] == s;
                assert(b[m] == s);
            } else {
                assert(b[b.len() - 1] == s);
            }
        }
        if b.contains(s) {
            let m = choose|m: int| 0 <= m < b.len() && b[m] == s;
            if m < a.len() {
                assert(a[m] == s);
                let k = choose|k: int|
                    #![trigger before[k]]
                    0 <= k < before.len() && before[k].stop_id == Some(s);
                assert(selectors[k] == before[k]);
            } else {
                assert(selectors[n].stop_id == Some(s));
            }
        }
    }
}

proof fn lemma_routes_of(selectors: Seq<EntitySelectorView>, s: Seq<char>)
    ensures
        routes_of(selectors).contains(s) <==> exists|k: int|
            #![trigger selectors[k]]
            0 <= k < selectors.len() && selectors[k].route_id == Some(s),
    decreases selectors.len(),
{
    if selectors.len() > 0 {
        let before = selectors.drop_last();
        let n = selectors.len() - 1;
        lemma_routes_of(before, s);
        let (a, b) = (routes_of(before), routes_of(selectors));
        if exists|k: int|
            #![trigger selectors[k]]
            0 <= k < selectors.len() && selectors[k].route_id == Some(s) {
            let k = choose|k: int|
                #![trigger selectors[k]]
                0 <= k < selectors.len() && selectors[k].route_id == Some(s);
            if k < n {
                assert(before[k] == selectors[k]);
                let m = choose|m: int| 0 <= m < a.len() && a[m] == s;
                assert(b[m] == s);
            } else {
                assert(b[b.len() - 1] == s);
            }
        }
        if b.contains(s) {
            let m = choose|m: int| 0 <= m < b.len() && b[m] == s;
            if m < a.len() {
                assert(a[m] == s);
                let k = choose|k: int|
                    #![trigger before[k]]
                    0 <= k < before.len() && before[k].route_id == Some(s);
                assert(selectors[k] == before[k]);
            } else {
                assert(selectors[n].route_id == Some(s));
            }
        }
    }
}

proof fn lemma_tells_of(alert: AlertView, id: Seq<char>)
    ensures
        tells_of(disruption_of(alert, id), alert),
{
    let d = disruption_of(alert, id);
    assert forall|s: Seq<char>| #[trigger] d.affected_stations.contains(s) <==> exists|k: int|
        #![trigger alert.informed_entity[k]]
        0 <= k < alert.informed_entity.len() && alert.informed_entity[k].stop_id == Some(s) by {
        lemma_stops_of(alert.informed_entity, s);
    }
    assert forall|s: Seq<char>| #[trigger] d.affected_lines.contains(s) <==> exists|k: int|
        #![trigger alert.informed_entity[k]]
        0 <= k < alert.informed_entity.len() && alert.informed_entity[k].route_id == Some(s) by {
        lemma_routes_of(alert.informed_entity, s);
    }
    lemma_first_given(alert.description_text);
    lemma_first_given(alert.header_text);
}

proof fn lemma_filters(alert: AlertView, line: Option<Seq<char>>, station: Option<Seq<char>>)
    ensures
        matches_filters(alert, line, station) <==> (line is Some ==> informs_of_route(
            alert,
            line->0,
        )) && (station is Some ==> informs_of_stop(alert, station->0)),
{
    let all = alert.informed_entity;
    if line is Some {
        let names = routes_of(all);
        let f = text::lowered(line->0);
        if passes(names, line) {
            let i = choose|i: int|
                0 <= i < names.len() && text::contains(text::lowered(#[trigger] names[i]), f);
            lemma_routes_of(all, names[i]);
            assert(names.contains(names[i]));
        }
        if informs_of_route(alert, line->0) {
            let k = choose|k: int|
                #![trigger all[k]]
                0 <= k < all.len() && all[k].route_id is Some && text::contains(
                    text::lowered(all[k].route_id->0),
                    f,
                );
            lemma_routes_of(all, all[k].route_id->0);
            assert(names.contains(all[k].route_id->0));
        }
    }
    if station is Some {
        let names = stops_of(all);
        let f = text::lowered(station->0);
        if passes(names, station) {
            let i = choose|i: int|
                0 <= i < names.len() && text::contains(text::lowered(#[trigger] names[i]), f);
            lemma_stops_of(all, names[i]);
            assert(names.contains(names[i]));
        }
        if informs_of_stop(alert, station->0) {
            let k = choose|k: int|
                #![trigger all[k]]
                0 <= k < all.len() && all[k].stop_id is Some && text::contains(
                    text::lowered(all[k].stop_id->0),
                    f,
                );
            lemma_stops_of(all, all[k].stop_id->0);
            assert(names.contains(all[k].stop_id->0));
        }
    }
}

/// One message more in a feed adds at most one disruption, behind the others. It adds one
/// exactly if the message is an alert of which some informed entity names a route that
/// holds the line, and some informed entity a stop that holds the station, as far as these
/// are asked for. The disruption goes by the reference of the message, or else by the one
/// at hand, and tells of the alert.
pub proof fn law_alert_adds_its_disruption(
    entities: Seq<FeedEntityView>,
    more: FeedEntityView,
    line: Option<Seq<char>>,
    station: Option<Seq<char>>,
    ids: Seq<Seq<char>>,
)
    ensures
        ({
            let before = disruptions_in(entities, line, station, ids);
            let after = disruptions_in(entities.push(more), line, station, ids);
            let asked = more.alert is Some && (line is Some ==> informs_of_route(
                more.alert->0,
                line->0,
            )) && (station is Some ==> informs_of_stop(more.alert->0, station->0));
            &&& after.take(before.len() as int) == before
            &&& !asked ==> after.len() == before.len()
            &&& asked ==> {
                &&& after.len() == before.len() + 1
                &&& after.last().id == if more.id is Some {
                    more.id->0
                } else {
                    ids[entities.len() as int]
                }
                &&& tells_of(after.last(), more.alert->0)
            }
        }),
{
    let all = entities.push(more);
    let before = disruptions_in(entities, line, station, ids);
    let after = disruptions_in(all, line, station, ids);
    assert(all.drop_last() =~= entities);
    assert(after.take(before.len() as int) =~= before);
    if more.alert is Some {
        let id = if more.id is Some {
            more.id->0
        } else {
            ids[entities.len() as int]
        };
        lemma_filters(more.alert->0, line, station);
        lemma_tells_of(more.alert->0, id);
    }
}

/// A feed without messages tells of no disruption.
pub proof fn law_empty_feed_has_no_disruptions(
    line: Option<Seq<char>>,
    station: Option<Seq<char>>,
    ids: Seq<Seq<char>>,
)
    ensures
        disruptions_in(Seq::empty(), line, station, ids).len() == 0,
{
}

// ---------------------------------------------------------------------------
// What the departures tell of the feed
// ---------------------------------------------------------------------------

/// The data on one stop more of a trip adds at most one departure, behind the others. It
/// adds one exactly if the stop is the station and has a departure or an arrival; of these
/// the departure counts. The departure is expected at the time of the event, or now where
/// that is no time of the calendar, and has the whole minutes of its delay.
pub proof fn law_stop_adds_its_departure(
    updates: Seq<StopTimeUpdateView>,
    more: StopTimeUpdateView,
    trip_id: Option<Seq<char>>,
    station_id: Seq<char>,
    now: FixedDateTime,
)
    ensures
        ({
            let before = departures_in(updates, trip_id, station_id, now);
            let after = departures_in(updates.push(more), trip_id, station_id, now);
            let here = more.stop_id == Some(station_id) && (more.departure is Some
                || more.arrival is Some);
            let event = if more.departure is Some {
                more.departure->0
            } else {
                more.arrival->0
            };
            let d = after.last();
            &&& after.take(before.len() as int) == before
            &&& !here ==> after.len() == before.len()
            &&& here ==> {
                &&& after.len() == before.len() + 1
                &&& d.trip_id == trip_id
                &&& d.line is None && d.mode is None && d.platform is None
                &&& d.service == "Transit"@
                &&& more.stop_headsign is Some ==> d.destination == more.stop_headsign->0
                &&& more.stop_headsign is None ==> d.destination == "Unknown destination"@
                &&& d.expected == if event.time is Some && event.time->0 >= 0
                    && time::timestamp_value(event.time->0 as u64) is Some {
                    time::timestamp_value(event.time->0 as u64)->0
                } else {
                    now
                }
                &&& event.delay is None ==> d.delay_minutes == 0 && time::moved_back(d.expected, 0)
                    is Some ==> time::moved_back(d.expected, 0) == Some(d.scheduled)
                &&& event.delay is Some ==> minutes_in(
                    d.delay_minutes as int,
                    event.delay->0 as int,
                ) && (time::moved_back(d.expected, event.delay->0 as int) is Some
                    ==> time::moved_back(d.expected, event.delay->0 as int) == Some(d.scheduled))
                &&& d.status == TripStatus::Delayed <==> d.delay_minutes >= 1
                &&& d.status == TripStatus::OnTime <==> d.delay_minutes <= 0
            }
        }),
{
    let all = updates.push(more);
    assert(all.drop_last() =~= updates);
    let before = departures_in(updates, trip_id, station_id, now);
    let after = departures_in(all, trip_id, station_id, now);
    assert(after.take(before.len() as int) =~= before);
    reveal_strlit("Transit");
}

/// One message more in a feed adds the departures of its trip, if it is about one.
pub proof fn law_message_adds_its_departures(
    entities: Seq<FeedEntityView>,
    more: FeedEntityView,
    station_id: Seq<char>,
    now: FixedDateTime,
)
    ensures
        departures_among(Seq::empty(), station_id, now).len() == 0,
        more.trip_update is None ==> departures_among(entities.push(more), station_id, now)
            == departures_among(entities, station_id, now),
        more.trip_update is Some ==> departures_among(entities.push(more), station_id, now)
            == departures_among(entities, station_id, now) + departures_in(
            more.trip_update->0.stop_time_update,
            if more.trip_update->0.trip is Some {
                more.trip_update->0.trip->0.trip_id
            } else {
                None
            },
            station_id,
            now,
        ),
        departures_in(Seq::empty(), None, station_id, now).len() == 0,
{
    assert(entities.push(more).drop_last() =~= entities);
}

/// The next departures are among those of the station, as many as asked for as far as
/// there are so many, and none that is left out is expected before them.
pub proof fn law_next_departures_are_the_earliest(
    feed: FeedMessageView,
    station_id: Seq<char>,
    limit: nat,
    now: FixedDateTime,
)
    ensures
        ({
            let found = departures_among(feed.entity, station_id, now);
            let next = next_departures(feed, station_id, limit as int, now);
            &&& next.len() == if found.len() <= limit {
                found.len()
            } else {
                limit
            }
            &&& forall|i: int| 0 <= i < next.len() ==> found.contains(#[trigger] next[i])
            &&& forall|d: DepartureView, i: int|
                #![trigger found.contains(d), next[i]]
                found.contains(d) && !next.contains(d) && 0 <= i < next.len()
                    ==> next[i].expected.not_after(d.expected)
            &&& found.len() <= limit ==> forall|d: DepartureView| #[trigger]
                found.contains(d) ==> next.contains(d)
        }),
{
    let found = departures_among(feed.entity, station_id, now);
    let next = next_departures(feed, station_id, limit as int, now);
    let all = order::sorted::<Departure>(found);
    order::law_sorted_keeps_items::<Departure>(found);
    assert(next =~= all.take(
        if found.len() <= limit {
            found.len() as int
        } else {
            limit as int
        },
    ));
    order::law_earliest_items_are_kept::<Departure>(found, next, limit);
    assert forall|d: DepartureView, i: int|
        #![trigger found.contains(d), next[i]]
        found.contains(d) && !next.contains(d) && 0 <= i < next.len() implies next[i].expected.not_after(
        d.expected,
    ) by {
        assert(<Departure as order::Ranked>::precedes(next[i], d));
    }
}

/// A feed that arrives is handed out as it is. A service that refuses or answers what cannot
/// be read is a failure. Where the service cannot be reached, the feed that was kept is
/// handed out with a warning that it is stale, and only where none was kept it is a
/// failure.
pub proof fn law_kept_feed_stands_in(
    feed: FeedMessageView,
    kept: FeedMessageView,
    status: Seq<char>,
    url: Seq<char>,
    body: Seq<char>,
    message: Seq<char>,
)
    ensures
        feed_outcome(FeedReplyView::Feed(feed), Some(kept)) == Ok::<_, Seq<char>>(
            (feed, None::<ToolWarningView>),
        ),
        feed_outcome(FeedReplyView::Feed(feed), None) == Ok::<_, Seq<char>>(
            (feed, None::<ToolWarningView>),
        ),
        feed_outcome(FeedReplyView::Refused { status, url, body }, Some(kept)) is Err,
        feed_outcome(FeedReplyView::Unreadable(message), Some(kept)) is Err,
        feed_outcome(FeedReplyView::Unreachable(message), None) == Err::<
            (FeedMessageView, Option<ToolWarningView>),
            _,
        >(message),
        feed_outcome(FeedReplyView::Unreachable(message), Some(kept)) is Ok,
        feed_outcome(FeedReplyView::Unreachable(message), Some(kept))->Ok_0.0 == kept,
        feed_outcome(FeedReplyView::Unreachable(message), Some(kept))->Ok_0.1 is Some,
        feed_outcome(FeedReplyView::Unreachable(message), Some(kept))->Ok_0.1->0.stale,
        text::contains(
            feed_outcome(FeedReplyView::Unreachable(message), Some(kept))->Ok_0.1->0.message,
            message,
        ),
        text::trimmed(body).len() == 0 ==> feed_outcome(
            FeedReplyView::Refused { status, url, body },
            None,
        )->Err_0 == "GTFS-RT API returned status "@ + status + " at "@ + url,
        0 < text::trimmed(body).len() <= 220 ==> feed_outcome(
            FeedReplyView::Refused { status, url, body },
            None,
        )->Err_0 == "GTFS-RT API returned status "@ + status + " at "@ + url + " (body: "@
            + text::trimmed(body) + ")"@,
        text::trimmed(body).len() > 220 ==> feed_outcome(
            FeedReplyView::Refused { status, url, body },
            None,
        )->Err_0 == "GTFS-RT API returned status "@ + status + " at "@ + url + " (body: "@
            + text::trimmed(body).take(220) + ")"@,
{
    let told = stale_feed_warning(message).message;
    reveal_strlit("GTFS-RT request failed (");
    let n = "GTFS-RT request failed ("@.len() as int;
    assert(told.subrange(n, n + message.len()) =~= message);
    assert(text::occurs_at(told, message, n));
}

/// The message for a refusal tells the status and the address, and of an answer that is not
/// blank the first 220 characters.
pub proof fn law_refusal_tells_the_answer(status: Seq<char>, url: Seq<char>, body: Seq<char>)
    ensures
        ({
            let head = "GTFS-RT API returned status "@ + status + " at "@ + url;
            let t = text::trimmed(body);
            &&& t.len() == 0 ==> refusal(status, url, body) == head
            &&& 0 < t.len() <= 220 ==> refusal(status, url, body) == head + " (body: "@ + t + ")"@
            &&& t.len() > 220 ==> refusal(status, url, body) == head + " (body: "@ + t.take(220)
                + ")"@
        }),
{
}

} // verus!
