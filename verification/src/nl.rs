//! Times, modes and routes in the words of a rider.

use vstd::prelude::*;

use crate::api::ojp::tags;
use crate::error;
use crate::error::Error;
use crate::models::TransportMode;
use crate::pattern;
use crate::text;
use crate::time;
use crate::time::{FixedDateTime, LocalDateTime};

verus! {

// ---------------------------------------------------------------------------
// Times
// ---------------------------------------------------------------------------

/// A number with at least two digits.
pub open spec fn two_digits(n: nat) -> Seq<char> {
    if n < 10 {
        "0"@ + text::decimal(n)
    } else {
        text::decimal(n)
    }
}

fn write_two_digits(n: u32) -> (r: String)
    ensures
        r@ == two_digits(n as nat),
{
    let number = text::write_decimal(n as u64);
    if n < 10 {
        let mut s = "0".to_owned();
        s.append(number.as_str());
        s
    } else {
        number
    }
}

/// The message for a local time that Zurich's clock skips.
pub open spec fn skipped_time(local: LocalDateTime) -> Seq<char> {
    let (year, month, day) = time::civil_date(local.date());
    "datetime is invalid in Europe/Zurich timezone: "@ + text::decimal_int(year as int) + "-"@
        + two_digits(month as nat) + "-"@ + two_digits(day as nat) + " "@ + time::clock_text(
        local.second_of_day(),
        local.subsec(),
    )
}

/// The moment that a local time denotes in Zurich, the first one if there are two.
pub open spec fn zurich_moment(local: LocalDateTime) -> Result<FixedDateTime, Seq<char>> {
    match tags::earliest(time::zurich_local(local)) {
        Some(t) => Ok(t),
        None => Err(skipped_time(local)),
    }
}

/// The moment that a local time denotes in Zurich.
fn map_zurich_naive(local: LocalDateTime) -> (r: Result<FixedDateTime, Error>)
    ensures
        error::outcome(r) == zurich_moment(local),
{
    match tags::first_moment(time::zurich_from_local(local)) {
        Some(t) => Ok(t),
        None => {
            let (year, month, day) = time::civil(local.day());
            let mut message = "datetime is invalid in Europe/Zurich timezone: ".to_owned();
            let y = text::write_decimal_int(year as i64);
            message.append(y.as_str());
            message.append("-");
            let m = write_two_digits(month);
            message.append(m.as_str());
            message.append("-");
            let d = write_two_digits(day);
            message.append(d.as_str());
            message.append(" ");
            let clock = time::write_clock(local.second(), local.nanos());
            message.append(clock.as_str());
            Err(error::failure(message))
        },
    }
}

/// The smaller of two numbers.
pub open spec fn at_most(n: nat, max: nat) -> nat {
    if n > max {
        max
    } else {
        n
    }
}

/// The hour and minute that the groups of a match give, within the day. Without a minute
/// that can be read, the hour is full.
pub open spec fn clock_of_groups(groups: (Option<Seq<char>>, Option<Seq<char>>)) -> Option<(nat, nat)> {
    match groups.0 {
        Some(h) => match text::unsigned_up_to(h, 4294967295) {
            Some(hour) => {
                let minute = match groups.1 {
                    Some(m) => match text::unsigned_up_to(m, 4294967295) {
                        Some(n) => n,
                        None => 0,
                    },
                    None => 0,
                };
                Some((at_most(hour, 23), at_most(minute, 59)))
            },
            None => None,
        },
        None => None,
    }
}

/// The hour and minute that the groups of a match give.
pub fn read_clock_groups(groups: &(Option<String>, Option<String>)) -> (r: Option<(u32, u32)>)
    ensures
        match r {
            Some((hour, minute)) => clock_of_groups(groups.deep_view()) == Some(
                (hour as nat, minute as nat),
            ) && hour < 24 && minute < 60,
            None => clock_of_groups(groups.deep_view()) is None,
        },
{
    match &groups.0 {
        Some(h) => match text::parse_unsigned(h.as_str(), 4294967295) {
            Some(hour) => {
                let minute: u64 = match &groups.1 {
                    Some(m) => match text::parse_unsigned(m.as_str(), 4294967295) {
                        Some(n) => n,
                        None => 0,
                    },
                    None => 0,
                };
                let h: u32 = if hour > 23 {
                    23
                } else {
                    hour as u32
                };
                let m: u32 = if minute > 59 {
                    59
                } else {
                    minute as u32
                };
                Some((h, m))
            },
            None => None,
        },
        None => None,
    }
}

/// The hour and minute in a text.
pub open spec fn clock_in(text: Seq<char>) -> Option<(nat, nat)> {
    match pattern::pattern_groups("(?i)(\\d{1,2})(?::(\\d{2}))?"@, text) {
        Some(groups) => clock_of_groups(groups),
        None => None,
    }
}

/// The hour and minute in a text.
fn parse_hour_minute(value: &str) -> (r: Option<(u32, u32)>)
    ensures
        match r {
            Some((hour, minute)) => clock_in(value@) == Some((hour as nat, minute as nat)) && hour
                < 24 && minute < 60,
            None => clock_in(value@) is None,
        },
{
    match pattern::find_groups("(?i)(\\d{1,2})(?::(\\d{2}))?", value) {
        Some(groups) => read_clock_groups(&groups),
        None => None,
    }
}

/// The moment of an hour and minute on the next day, where the calendar has that day.
pub open spec fn tomorrow_at(now: FixedDateTime, clock: (nat, nat)) -> Result<
    FixedDateTime,
    Seq<char>,
> {
    let day = now.local_day() + 1;
    if time::MIN_DAY <= day <= time::MAX_DAY {
        zurich_moment(LocalDateTime::of_parts(day, 3600 * clock.0 as int + 60 * clock.1 as int, 0))
    } else {
        Err("failed to compute tomorrow date"@)
    }
}

/// The words that ask for the current time.
pub open spec fn asks_now(value: Option<Seq<char>>) -> bool {
    match value {
        Some(v) => {
            let t = text::trimmed(v);
            t.len() == 0 || text::lowered(t) == "earliest"@ || text::lowered(t) == "now"@
        },
        None => true,
    }
}

/// The local time that a text gives in one of the two short notations.
pub open spec fn short_time(t: Seq<char>) -> Option<LocalDateTime> {
    match time::naive_value(t, "%Y-%m-%dT%H:%M"@) {
        Some(local) => Some(local),
        None => time::naive_value(t, "%Y-%m-%d %H:%M"@),
    }
}

/// The local time that a text gives in one of the two short notations.
pub fn parse_short_time(value: &str) -> (r: Option<LocalDateTime>)
    ensures
        r == short_time(value@),
{
    match time::parse_naive(value, "%Y-%m-%dT%H:%M") {
        Some(local) => Some(local),
        None => time::parse_naive(value, "%Y-%m-%d %H:%M"),
    }
}

/// The moment that a rider's words denote at a given time: now, a time with or without an
/// offset, or tomorrow at some hour, by default at six.
pub open spec fn moment_of(value: Option<Seq<char>>, now: FixedDateTime) -> Result<
    FixedDateTime,
    Seq<char>,
> {
    if asks_now(value) {
        Ok(now)
    } else {
        let t = text::trimmed(value->0);
        let lower = text::lowered(t);
        match time::rfc3339_value(t) {
            Some(at) => Ok(at),
            None => match short_time(t) {
                Some(local) => zurich_moment(local),
                None => if text::contains(lower, "tomorrow"@) {
                    tomorrow_at(
                        now,
                        match clock_in(lower) {
                            Some(clock) => clock,
                            None => (6, 0),
                        },
                    )
                } else {
                    Err("unsupported datetime value: "@ + t)
                },
            },
        }
    }
}

/// The moment that a rider's words denote at a given time.
pub fn parse_datetime_input_at(input: Option<&str>, now: FixedDateTime) -> (r: Result<
    FixedDateTime,
    Error,
>)
    ensures
        error::outcome(r) == moment_of(input.deep_view(), now),
{
    let value = match input {
        Some(v) => text::trim(v),
        None => return Ok(now),
    };
    let lower = text::to_lower(value.as_str());
    if value.as_str().is_empty() || text::same(lower.as_str(), "earliest") || text::same(
        lower.as_str(),
        "now",
    ) {
        return Ok(now);
    }
    match time::parse_rfc3339(value.as_str()) {
        Some(at) => return Ok(at),
        None => {},
    }
    match parse_short_time(value.as_str()) {
        Some(local) => return map_zurich_naive(local),
        None => {},
    }
    if text::has(lower.as_str(), "tomorrow") {
        let (hour, minute) = match parse_hour_minute(lower.as_str()) {
            Some(clock) => clock,
            None => (6, 0),
        };
        match LocalDateTime::at(now.day() + 1, hour, minute) {
            Some(local) => map_zurich_naive(local),
            None => Err(error::failure("failed to compute tomorrow date".to_owned())),
        }
    } else {
        let mut message = "unsupported datetime value: ".to_owned();
        message.append(value.as_str());
        Err(error::failure(message))
    }
}

/// The moment that a rider's words denote.
pub fn parse_datetime_input(input: Option<&str>) -> (r: Result<FixedDateTime, Error>)
    ensures
        exists|now: FixedDateTime|
            time::zurich_reading(now) && error::outcome(r) == #[trigger] moment_of(
                input.deep_view(),
                now,
            ),
{
    let now = time::now_fixed();
    parse_datetime_input_at(input, now)
}

// ---------------------------------------------------------------------------
// Modes
// ---------------------------------------------------------------------------

/// The mode that a word names.
pub open spec fn mode_named(token: Seq<char>) -> Option<TransportMode> {
    let t = text::lowered(text::trimmed(token));
    if t == "rail"@ || t == "train"@ {
        Some(TransportMode::Rail)
    } else if t == "bus"@ {
        Some(TransportMode::Bus)
    } else if t == "tram"@ {
        Some(TransportMode::Tram)
    } else if t == "ship"@ || t == "boat"@ {
        Some(TransportMode::Ship)
    } else if t == "cableway"@ || t == "cable"@ {
        Some(TransportMode::Cableway)
    } else if t == "funicular"@ || t == "standseilbahn"@ {
        Some(TransportMode::Funicular)
    } else if t == "all"@ {
        Some(TransportMode::All)
    } else {
        None
    }
}

/// The mode that a word names.
pub fn parse_mode_token(token: &str) -> (r: Option<TransportMode>)
    ensures
        r == mode_named(token@),
{
    let trimmed = text::trim(token);
    let lower = text::to_lower(trimmed.as_str());
    let t = lower.as_str();
    if text::same(t, "rail") || text::same(t, "train") {
        Some(TransportMode::Rail)
    } else if text::same(t, "bus") {
        Some(TransportMode::Bus)
    } else if text::same(t, "tram") {
        Some(TransportMode::Tram)
    } else if text::same(t, "ship") || text::same(t, "boat") {
        Some(TransportMode::Ship)
    } else if text::same(t, "cableway") || text::same(t, "cable") {
        Some(TransportMode::Cableway)
    } else if text::same(t, "funicular") || text::same(t, "standseilbahn") {
        Some(TransportMode::Funicular)
    } else if text::same(t, "all") {
        Some(TransportMode::All)
    } else {
        None
    }
}

/// A list of modes with one more, unless it is there already.
pub open spec fn with_mode(modes: Seq<TransportMode>, mode: Option<TransportMode>) -> Seq<TransportMode> {
    match mode {
        Some(m) => if modes.contains(m) {
            modes
        } else {
            modes.push(m)
        },
        None => modes,
    }
}

/// Adds a mode to a list, unless it is there already.
pub fn add_mode(modes: &mut Vec<TransportMode>, mode: Option<TransportMode>)
    ensures
        final(modes)@ == with_mode(old(modes)@, mode),
{
    match mode {
        Some(m) => {
            let mut i: usize = 0;
            let ghost before = modes@;
            while i < modes.len()
                invariant
                    modes@ == before,
                    i <= modes@.len(),
                    mode == Some(m),
                    before == old(modes)@,
                    forall|k: int| 0 <= k < i ==> modes@[k] != m,
                decreases modes@.len() - i,
            {
                if modes[i] == m {
                    assert(before.contains(m));
                    return;
                }
                i += 1;
            }
            assert(!before.contains(m));
            modes.push(m);
        },
        None => {},
    }
}

/// The modes that words name, each once.
pub open spec fn modes_named(tokens: Seq<Seq<char>>) -> Seq<TransportMode>
    decreases tokens.len(),
{
    if tokens.len() == 0 {
        Seq::empty()
    } else {
        with_mode(modes_named(tokens.drop_last()), mode_named(tokens.last()))
    }
}

/// A list of modes with one more, if it is meant.
pub open spec fn with_meant(modes: Seq<TransportMode>, meant: bool, mode: TransportMode) -> Seq<TransportMode> {
    if meant {
        modes.push(mode)
    } else {
        modes
    }
}

/// The modes that a text speaks of.
pub open spec fn modes_in(value: Seq<char>) -> Seq<TransportMode> {
    let t = text::lowered(value);
    let a = with_meant(
        Seq::empty(),
        text::contains(t, "train"@) || text::contains(t, "rail"@),
        TransportMode::Rail,
    );
    let b = with_meant(a, text::contains(t, "bus"@), TransportMode::Bus);
    let c = with_meant(b, text::contains(t, "tram"@), TransportMode::Tram);
    let d = with_meant(
        c,
        text::contains(t, "boat"@) || text::contains(t, "ship"@),
        TransportMode::Ship,
    );
    let e = with_meant(
        d,
        text::contains(t, "cable"@) || text::contains(t, "gondola"@),
        TransportMode::Cableway,
    );
    with_meant(
        e,
        text::contains(t, "funicular"@) || text::contains(t, "standseilbahn"@),
        TransportMode::Funicular,
    )
}

/// The modes that are asked for: those that are named, or else those that a text speaks
/// of, or else all.
pub open spec fn modes_asked(names: Option<Seq<Seq<char>>>, free_text: Option<Seq<char>>) -> Seq<
    TransportMode,
> {
    let named = match names {
        Some(tokens) => modes_named(tokens),
        None => Seq::empty(),
    };
    let spoken = match free_text {
        Some(t) => modes_in(t),
        None => Seq::empty(),
    };
    if named.len() > 0 {
        named
    } else if spoken.len() > 0 {
        spoken
    } else {
        seq![TransportMode::All]
    }
}

fn add_meant(modes: &mut Vec<TransportMode>, meant: bool, mode: TransportMode)
    ensures
        final(modes)@ == with_meant(old(modes)@, meant, mode),
{
    if meant {
        modes.push(mode);
    }
}

fn find_modes_in(value: &str) -> (r: Vec<TransportMode>)
    ensures
        r@ == modes_in(value@),
{
    let lower = text::to_lower(value);
    let t = lower.as_str();
    let mut modes: Vec<TransportMode> = Vec::new();
    add_meant(&mut modes, text::has(t, "train") || text::has(t, "rail"), TransportMode::Rail);
    add_meant(&mut modes, text::has(t, "bus"), TransportMode::Bus);
    add_meant(&mut modes, text::has(t, "tram"), TransportMode::Tram);
    add_meant(&mut modes, text::has(t, "boat") || text::has(t, "ship"), TransportMode::Ship);
    add_meant(&mut modes, text::has(t, "cable") || text::has(t, "gondola"), TransportMode::Cableway);
    add_meant(
        &mut modes,
        text::has(t, "funicular") || text::has(t, "standseilbahn"),
        TransportMode::Funicular,
    );
    modes
}

/// The modes that are asked for.
pub fn parse_modes(modes: Option<Vec<String>>, free_text: Option<&str>) -> (r: Vec<TransportMode>)
    ensures
        r@ == modes_asked(modes.deep_view(), free_text.deep_view()),
{
    match &modes {
        Some(tokens) => {
            let ghost all = tokens.deep_view();
            let mut named: Vec<TransportMode> = Vec::new();
            let mut i: usize = 0;
            assert(named@ =~= modes_named(all.take(0)));
            while i < tokens.len()
                invariant
                    i <= tokens@.len(),
                    all == tokens.deep_view(),
                    named@ == modes_named(all.take(i as int)),
                decreases tokens@.len() - i,
            {
                assert(all.take(i + 1).drop_last() =~= all.take(i as int));
                assert(all.take(i + 1).last() == tokens@[i as int]@);
                add_mode(&mut named, parse_mode_token(tokens[i].as_str()));
                i += 1;
            }
            assert(all.take(i as int) =~= all);
            if named.len() > 0 {
                return named;
            }
        },
        None => {},
    }
    match free_text {
        Some(t) => {
            let spoken = find_modes_in(t);
            if spoken.len() > 0 {
                return spoken;
            }
        },
        None => {},
    }
    let mut all: Vec<TransportMode> = Vec::new();
    all.push(TransportMode::All);
    assert(all@ =~= seq![TransportMode::All]);
    all
}

// ---------------------------------------------------------------------------
// Routes
// ---------------------------------------------------------------------------

/// The two ends of a route: as given, or else as parted by the word "to".
pub open spec fn route_of(from: Seq<char>, to: Option<Seq<char>>) -> (Seq<char>, Seq<char>) {
    match to {
        Some(t) if text::trimmed(t).len() > 0 => (text::trimmed(from), text::trimmed(t)),
        _ => match text::find_from(text::lowered(from), " to "@, 0) {
            Some(i) if text::trimmed(from.take(i)).len() > 0 && text::trimmed(from.skip(i + 4)).len()
                > 0 => (text::trimmed(from.take(i)), text::trimmed(from.skip(i + 4))),
            _ => (text::trimmed(from), Seq::empty()),
        },
    }
}

/// The two ends of a route.
pub fn split_route_phrase(from_station: &str, to_station: Option<&str>) -> (r: (String, String))
    ensures
        (r.0@, r.1@) == route_of(from_station@, to_station.deep_view()),
{
    match to_station {
        Some(t) => {
            let to = text::trim(t);
            if !to.as_str().is_empty() {
                return (text::trim(from_station), to);
            }
        },
        None => {},
    }
    proof {
        reveal_strlit(" to ");
    }
    let lower = text::to_lower(from_station);
    let hay = text::chars_of(lower.as_str());
    let needle = text::chars_of(" to ");
    let whole = text::chars_of(from_station);
    match text::find(&hay, &needle, 0) {
        Some(i) => {
            let n: usize = whole.len();
            let head = text::text_between(&whole, 0, i);
            let tail = text::text_between(&whole, i + 4, n);
            assert(head@ =~= from_station@.take(i as int));
            assert(tail@ =~= from_station@.skip(i + 4));
            let from = text::trim(head.as_str());
            let to = text::trim(tail.as_str());
            if !from.as_str().is_empty() && !to.as_str().is_empty() {
                return (from, to);
            }
        },
        None => {},
    }
    let none = String::new();
    assert(none@ =~= Seq::empty());
    (text::trim(from_station), none)
}

/// Some mode is always asked for, and none of them twice.
pub proof fn law_modes_are_distinct(names: Option<Seq<Seq<char>>>, free_text: Option<Seq<char>>)
    ensures
        modes_asked(names, free_text).len() > 0,
        forall|i: int, j: int|
            0 <= i < j < modes_asked(names, free_text).len() ==> #[trigger] modes_asked(
                names,
                free_text,
            )[i] != #[trigger] modes_asked(names, free_text)[j],
{
    match names {
        Some(tokens) => lemma_modes_named(tokens),
        None => {},
    }
}

proof fn lemma_modes_named(tokens: Seq<Seq<char>>)
    ensures
        forall|i: int, j: int|
            0 <= i < j < modes_named(tokens).len() ==> #[trigger] modes_named(tokens)[i]
                != #[trigger] modes_named(tokens)[j],
    decreases tokens.len(),
{
    if tokens.len() > 0 {
        lemma_modes_named(tokens.drop_last());
        let before = modes_named(tokens.drop_last());
        let after = modes_named(tokens);
        assert forall|i: int, j: int| 0 <= i < j < after.len() implies #[trigger] after[i]
            != #[trigger] after[j] by {
            if j == before.len() {
                assert(before[i] == after[i]);
                assert(before.contains(before[i]));
            }
        }
    }
}

/// The word for a mode names that mode.
pub proof fn law_mode_words_are_understood(mode: TransportMode)
    ensures
        mode_named(mode.name()) == Some(mode),
{
    reveal_strlit("rail");
    reveal_strlit("train");
    reveal_strlit("bus");
    reveal_strlit("tram");
    reveal_strlit("ship");
    reveal_strlit("boat");
    reveal_strlit("cableway");
    reveal_strlit("cable");
    reveal_strlit("funicular");
    reveal_strlit("standseilbahn");
    reveal_strlit("all");
    let name = mode.name();
    assert(!text::is_white(name[0]));
    assert(!text::is_white(name.last()));
    assert(text::trimmed(name) =~= name);
    assert(text::lowered(name) =~= name);
}

// ---------------------------------------------------------------------------
// What a rider's words mean
// ---------------------------------------------------------------------------

/// Nothing, blanks, "now" and "earliest", in any case of letters, ask for the current time,
/// and nothing else does.
pub proof fn law_words_for_now(value: Seq<char>, now: FixedDateTime)
    ensures
        moment_of(None, now) == Ok::<FixedDateTime, Seq<char>>(now),
        ({
            let t = text::lowered(text::trimmed(value));
            asks_now(Some(value)) <==> t.len() == 0 || t == seq!['n', 'o', 'w'] || t == seq![
                'e',
                'a',
                'r',
                'l',
                'i',
                'e',
                's',
                't',
            ]
        }),
        asks_now(Some(value)) ==> moment_of(Some(value), now) == Ok::<FixedDateTime, Seq<char>>(
            now,
        ),
{
    reveal_strlit("now");
    reveal_strlit("earliest");
    assert("now"@ =~= seq!['n', 'o', 'w']);
    assert("earliest"@ =~= seq!['e', 'a', 'r', 'l', 'i', 'e', 's', 't']);
}

/// A time with an offset is meant as it is. One without an offset is told by Zurich's clock,
/// which may skip it; of two such moments the first is meant.
pub proof fn law_times_are_meant_as_they_are(value: Seq<char>, now: FixedDateTime)
    requires
        !asks_now(Some(value)),
    ensures
        ({
            let t = text::trimmed(value);
            let r = moment_of(Some(value), now);
            let local = if time::naive_value(t, "%Y-%m-%dT%H:%M"@) is Some {
                time::naive_value(t, "%Y-%m-%dT%H:%M"@)
            } else {
                time::naive_value(t, "%Y-%m-%d %H:%M"@)
            };
            &&& time::rfc3339_value(t) is Some ==> r == Ok::<FixedDateTime, Seq<char>>(
                time::rfc3339_value(t)->0,
            )
            &&& time::rfc3339_value(t) is None && local is Some ==> match time::zurich_local(
                local->0,
            ) {
                time::LocalMapping::Single(m) => r == Ok::<FixedDateTime, Seq<char>>(m),
                time::LocalMapping::Ambiguous(m, _) => r == Ok::<FixedDateTime, Seq<char>>(m),
                time::LocalMapping::Missing => r is Err,
            }
            &&& time::rfc3339_value(t) is None && local is None && !text::contains(
                text::lowered(t),
                "tomorrow"@,
            ) ==> r == Err::<FixedDateTime, Seq<char>>("unsupported datetime value: "@ + t)
        }),
{
}

/// "Tomorrow" is the day after the present one by the local clock, at the hour and minute
/// that are told, or else at six.
pub proof fn law_tomorrow_is_the_next_day(value: Seq<char>, now: FixedDateTime)
    requires
        !asks_now(Some(value)),
        time::rfc3339_value(text::trimmed(value)) is None,
        time::naive_value(text::trimmed(value), "%Y-%m-%dT%H:%M"@) is None,
        time::naive_value(text::trimmed(value), "%Y-%m-%d %H:%M"@) is None,
        text::contains(text::lowered(text::trimmed(value)), "tomorrow"@),
        time::MIN_DAY <= now.local_day() + 1 <= time::MAX_DAY,
    ensures
        ({
            let clock = clock_in(text::lowered(text::trimmed(value)));
            let day = (now.unix() + now.east()) / 86400 + 1;
            let local = LocalDateTime::of_parts(
                day,
                match clock {
                    Some((hour, minute)) => 3600 * hour as int + 60 * minute as int,
                    None => 21600,
                },
                0,
            );
            match time::zurich_local(local) {
                time::LocalMapping::Single(m) => moment_of(Some(value), now) == Ok::<
                    FixedDateTime,
                    Seq<char>,
                >(m),
                time::LocalMapping::Ambiguous(m, _) => moment_of(Some(value), now) == Ok::<
                    FixedDateTime,
                    Seq<char>,
                >(m),
                time::LocalMapping::Missing => moment_of(Some(value), now) is Err,
            }
        }),
{
}

/// An hour and a minute are read as numbers, and are cut to the last of the day and of the
/// hour. A minute that is missing or no number is zero.
pub proof fn law_hours_and_minutes(h: Seq<char>, m: Seq<char>, hour: nat, minute: nat)
    requires
        text::unsigned_value(h) == Some(hour),
        text::unsigned_value(m) == Some(minute),
        hour <= 4294967295,
        minute <= 4294967295,
    ensures
        hour <= 23 && minute <= 59 ==> clock_of_groups((Some(h), Some(m))) == Some((hour, minute)),
        hour > 23 && minute <= 59 ==> clock_of_groups((Some(h), Some(m))) == Some((23nat, minute)),
        hour <= 23 && minute > 59 ==> clock_of_groups((Some(h), Some(m))) == Some((hour, 59nat)),
        hour <= 23 ==> clock_of_groups((Some(h), None)) == Some((hour, 0nat)),
        clock_of_groups((None, Some(m))) is None,
        clock_of_groups((Some(Seq::empty()), Some(m))) is None,
{
}

/// What the words for modes mean, in any case of letters.
pub proof fn law_words_for_modes(token: Seq<char>)
    ensures
        ({
            let t = text::lowered(text::trimmed(token));
            let m = mode_named(token);
            &&& t == "rail"@ || t == "train"@ <==> m == Some(TransportMode::Rail)
            &&& t == "bus"@ <==> m == Some(TransportMode::Bus)
            &&& t == "tram"@ <==> m == Some(TransportMode::Tram)
            &&& t == "ship"@ || t == "boat"@ <==> m == Some(TransportMode::Ship)
            &&& t == "cableway"@ || t == "cable"@ <==> m == Some(TransportMode::Cableway)
            &&& t == "funicular"@ || t == "standseilbahn"@ <==> m == Some(
                TransportMode::Funicular,
            )
            &&& t == "all"@ <==> m == Some(TransportMode::All)
        }),
{
    reveal_strlit("rail");
    reveal_strlit("train");
    reveal_strlit("bus");
    reveal_strlit("tram");
    reveal_strlit("ship");
    reveal_strlit("boat");
    reveal_strlit("cableway");
    reveal_strlit("cable");
    reveal_strlit("funicular");
    reveal_strlit("standseilbahn");
    reveal_strlit("all");
    assert("rail"@.len() == 4 && "rail"@[0] == 'r');
    assert("train"@.len() == 5 && "train"@[0] == 't');
    assert("bus"@.len() == 3 && "bus"@[0] == 'b');
    assert("tram"@.len() == 4 && "tram"@[0] == 't');
    assert("ship"@.len() == 4 && "ship"@[0] == 's');
    assert("boat"@.len() == 4 && "boat"@[0] == 'b');
    assert("cableway"@.len() == 8);
    assert("cable"@.len() == 5 && "cable"@[0] == 'c');
    assert("funicular"@.len() == 9);
    assert("standseilbahn"@.len() == 13);
    assert("all"@.len() == 3 && "all"@[0] == 'a');
}

/// A mode is asked for exactly if some word names it; without any word that names a mode,
/// if the text speaks of it; and without that, all modes are asked for.
pub proof fn law_modes_that_are_asked_for(
    tokens: Seq<Seq<char>>,
    free_text: Seq<char>,
    mode: TransportMode,
)
    ensures
        (exists|i: int| #![trigger tokens[i]] 0 <= i < tokens.len() && mode_named(tokens[i]) is Some)
            ==> (modes_asked(Some(tokens), Some(free_text)).contains(mode) <==> exists|i: int|
            #![trigger tokens[i]]
            0 <= i < tokens.len() && mode_named(tokens[i]) == Some(mode)),
        modes_asked(None, None) == seq![TransportMode::All],
        modes_in(free_text).len() > 0 ==> modes_asked(None, Some(free_text)) == modes_in(free_text),
        modes_in(free_text).len() == 0 ==> modes_asked(None, Some(free_text)) == seq![
            TransportMode::All,
        ],
{
    lemma_modes_named_hold(tokens, mode);
    if exists|i: int| #![trigger tokens[i]] 0 <= i < tokens.len() && mode_named(tokens[i]) is Some {
        let i = choose|i: int|
            #![trigger tokens[i]]
            0 <= i < tokens.len() && mode_named(tokens[i]) is Some;
        lemma_modes_named_hold(tokens, mode_named(tokens[i])->0);
        assert(modes_named(tokens).contains(mode_named(tokens[i])->0));
    }
}

proof fn lemma_modes_named_hold(tokens: Seq<Seq<char>>, mode: TransportMode)
    ensures
        modes_named(tokens).contains(mode) <==> exists|i: int|
            #![trigger tokens[i]]
            0 <= i < tokens.len() && mode_named(tokens[i]) == Some(mode),
    decreases tokens.len(),
{
    if tokens.len() > 0 {
        let some = tokens.drop_last();
        let n = tokens.len() - 1;
        lemma_modes_named_hold(some, mode);
        let (a, b) = (modes_named(some), modes_named(tokens));
        if exists|i: int|
            #![trigger tokens[i]]
            0 <= i < tokens.len() && mode_named(tokens[i]) == Some(mode) {
            let i = choose|i: int|
                #![trigger tokens[i]]
                0 <= i < tokens.len() && mode_named(tokens[i]) == Some(mode);
            if i < n {
                assert(some[i] == tokens[i]);
                let m = choose|m: int| 0 <= m < a.len() && a[m] == mode;
                assert(b[m] == mode);
            } else if !a.contains(mode) {
                assert(b[b.len() - 1] == mode);
            }
        }
        if b.contains(mode) {
            let m = choose|m: int| 0 <= m < b.len() && b[m] == mode;
            if m < a.len() {
                assert(a[m] == mode);
                let i = choose|i: int|
                    #![trigger some[i]]
                    0 <= i < some.len() && mode_named(some[i]) == Some(mode);
                assert(tokens[i] == some[i]);
            } else {
                assert(mode_named(tokens[n]) == Some(mode));
            }
        }
    }
}

/// The modes that a text speaks of, in any case of letters.
pub proof fn law_modes_that_a_text_speaks_of(value: Seq<char>)
    ensures
        ({
            let t = text::lowered(value);
            let modes = modes_in(value);
            &&& modes.contains(TransportMode::Rail) <==> text::contains(t, "train"@)
                || text::contains(t, "rail"@)
            &&& modes.contains(TransportMode::Bus) <==> text::contains(t, "bus"@)
            &&& modes.contains(TransportMode::Tram) <==> text::contains(t, "tram"@)
            &&& modes.contains(TransportMode::Ship) <==> text::contains(t, "boat"@)
                || text::contains(t, "ship"@)
            &&& modes.contains(TransportMode::Cableway) <==> text::contains(t, "cable"@)
                || text::contains(t, "gondola"@)
            &&& modes.contains(TransportMode::Funicular) <==> text::contains(t, "funicular"@)
                || text::contains(t, "standseilbahn"@)
            &&& !modes.contains(TransportMode::All)
        }),
{
    let t = text::lowered(value);
    let e = Seq::<TransportMode>::empty();
    let m1 = text::contains(t, "train"@) || text::contains(t, "rail"@);
    let m2 = text::contains(t, "bus"@);
    let m3 = text::contains(t, "tram"@);
    let m4 = text::contains(t, "boat"@) || text::contains(t, "ship"@);
    let m5 = text::contains(t, "cable"@) || text::contains(t, "gondola"@);
    let m6 = text::contains(t, "funicular"@) || text::contains(t, "standseilbahn"@);
    let a = with_meant(e, m1, TransportMode::Rail);
    let b = with_meant(a, m2, TransportMode::Bus);
    let c = with_meant(b, m3, TransportMode::Tram);
    let d = with_meant(c, m4, TransportMode::Ship);
    let f = with_meant(d, m5, TransportMode::Cableway);
    let g = with_meant(f, m6, TransportMode::Funicular);
    assert forall|x: TransportMode|
        (#[trigger] g.contains(x) <==> (m1 && x == TransportMode::Rail) || (m2 && x
            == TransportMode::Bus) || (m3 && x == TransportMode::Tram) || (m4 && x
            == TransportMode::Ship) || (m5 && x == TransportMode::Cableway) || (m6 && x
            == TransportMode::Funicular)) by {
        lemma_with_meant(e, m1, TransportMode::Rail, x);
        lemma_with_meant(a, m2, TransportMode::Bus, x);
        lemma_with_meant(b, m3, TransportMode::Tram, x);
        lemma_with_meant(c, m4, TransportMode::Ship, x);
        lemma_with_meant(d, m5, TransportMode::Cableway, x);
        lemma_with_meant(f, m6, TransportMode::Funicular, x);
    }
    assert(g == modes_in(value));
}

proof fn lemma_with_meant(
    modes: Seq<TransportMode>,
    meant: bool,
    mode: TransportMode,
    x: TransportMode,
)
    ensures
        with_meant(modes, meant, mode).contains(x) <==> modes.contains(x) || (meant && x == mode),
{
    let after = with_meant(modes, meant, mode);
    if modes.contains(x) {
        let k = choose|k: int| 0 <= k < modes.len() && modes[k] == x;
        assert(after[k] == x);
    }
    if meant && x == mode {
        assert(after[after.len() - 1] == x);
    }
    if after.contains(x) {
        let k = choose|k: int| 0 <= k < after.len() && after[k] == x;
        if k < modes.len() {
            assert(modes[k] == x);
        }
    }
}

/// The ends of a route are as given, without the white space around them; without a second
/// end, the word "to" parts them where it first stands between two names.
pub proof fn law_ends_of_a_route(from: Seq<char>, to: Seq<char>)
    ensures
        text::trimmed(to).len() > 0 ==> route_of(from, Some(to)) == (
            text::trimmed(from),
            text::trimmed(to),
        ),
        text::trimmed(to).len() == 0 ==> route_of(from, Some(to)) == route_of(from, None),
        !text::contains(text::lowered(from), " to "@) ==> route_of(from, None) == (
            text::trimmed(from),
            Seq::<char>::empty(),
        ),
        forall|i: int|
            #![trigger from.take(i)]
            0 <= i && text::occurs_at(text::lowered(from), " to "@, i) && (forall|j: int|
                0 <= j < i ==> !text::occurs_at(text::lowered(from), " to "@, j)) && text::trimmed(
                from.take(i),
            ).len() > 0 && text::trimmed(from.skip(i + 4)).len() > 0 ==> route_of(from, None) == (
                text::trimmed(from.take(i)),
                text::trimmed(from.skip(i + 4)),
            ),
{
    let l = text::lowered(from);
    let p = " to "@;
    assert forall|i: int|
        #![trigger from.take(i)]
        0 <= i && text::occurs_at(l, p, i) && (forall|j: int|
            0 <= j < i ==> !text::occurs_at(l, p, j)) implies text::find_from(l, p, 0) == Some(i) by {
        lemma_found_at(l, p, 0, i);
    }
    if !text::contains(l, p) {
        lemma_not_found(l, p, 0);
    }
}

proof fn lemma_found_at(s: Seq<char>, p: Seq<char>, from: int, i: int)
    requires
        0 <= from <= i,
        text::occurs_at(s, p, i),
        forall|j: int| from <= j < i ==> !text::occurs_at(s, p, j),
    ensures
        text::find_from(s, p, from) == Some(i),
    decreases i - from,
{
    if from < i {
        assert(!text::occurs_at(s, p, from));
        lemma_found_at(s, p, from + 1, i);
    }
}

proof fn lemma_not_found(s: Seq<char>, p: Seq<char>, from: int)
    requires
        !text::contains(s, p),
    ensures
        text::find_from(s, p, from) is None,
    decreases s.len() - from,
{
    if 0 <= from && from + p.len() <= s.len() {
        assert(!text::occurs_at(s, p, from));
        if from < s.len() {
            lemma_not_found(s, p, from + 1);
        }
    }
}

/// The hour and the minute are the two groups of the first place where one or two digits
/// stand, with a colon and two digits behind them or without.
pub proof fn law_first_digits_tell_the_hour(
    value: Seq<char>,
    h: Seq<char>,
    hour: nat,
)
    requires
        pattern::pattern_groups("(?i)(\\d{1,2})(?::(\\d{2}))?"@, value) == Some(
            (Some(h), None::<Seq<char>>),
        ),
        text::unsigned_value(h) == Some(hour),
        hour <= 23,
    ensures
        clock_in(value) == Some((hour, 0nat)),
{
    law_hours_and_minutes(h, h, hour, hour);
}

/// Without digits there is no hour.
pub proof fn law_no_digits_tell_no_hour(value: Seq<char>)
    requires
        pattern::pattern_groups("(?i)(\\d{1,2})(?::(\\d{2}))?"@, value) is None,
    ensures
        clock_in(value) is None,
{
}

/// A number of one digit is told with a zero in front, and any other as it is.
pub proof fn law_two_digits(n: nat)
    ensures
        n < 10 ==> two_digits(n) == seq!['0', text::digit_char(n as int)],
        n >= 10 ==> two_digits(n) == text::decimal(n),
        10 <= n < 100 ==> two_digits(n).len() == 2,
{
    reveal_strlit("0");
    assert("0"@ =~= seq!['0']);
    if n < 10 {
        assert(two_digits(n) =~= seq!['0', text::digit_char(n as int)]);
    } else if n < 100 {
        assert(text::decimal(n / 10).len() == 1);
    }
}

/// Of a local time that Zurich's clock skips, the failure tells date and time.
pub proof fn law_skipped_time_is_told(local: LocalDateTime)
    ensures
        ({
            let (year, month, day) = time::civil_date(local.date());
            skipped_time(local) == "datetime is invalid in Europe/Zurich timezone: "@
                + text::decimal_int(year as int) + "-"@ + two_digits(month as nat) + "-"@
                + two_digits(day as nat) + " "@ + time::clock_text(
                local.second_of_day(),
                local.subsec(),
            )
        }),
{
}

} // verus!
