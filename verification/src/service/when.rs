//! The time of departure that a trip search asks for.

use vstd::prelude::*;

use crate::api::ojp::tags;
use crate::error;
use crate::error::Error;
use crate::models::TransportMode;
use crate::nl;
use crate::text;
use crate::text::CharSet;
use crate::time;
use crate::time::{FixedDateTime, LocalDateTime};

verus! {

/// The first text with a digit.
pub open spec fn first_with_digit(words: Seq<Seq<char>>) -> Option<Seq<char>>
    decreases words.len(),
{
    if words.len() == 0 {
        None
    } else if text::any_digit(words[0]) {
        Some(words[0])
    } else {
        first_with_digit(words.drop_first())
    }
}

/// The hour and minute that a word with colons gives, within the day.
pub open spec fn clock_of_word(word: Seq<char>) -> Option<(nat, nat)> {
    let parts = text::pieces(word, CharSet::Only(':'));
    nl::clock_of_groups(
        (
            Some(parts[0]),
            if parts.len() > 1 {
                Some(parts[1])
            } else {
                None
            },
        ),
    )
}

/// The hour and minute in a text: those of its first word with a digit.
pub open spec fn clock_in(value: Seq<char>) -> Option<(nat, nat)> {
    match first_with_digit(text::words(value)) {
        Some(word) => clock_of_word(word),
        None => None,
    }
}

proof fn lemma_some_piece(s: Seq<char>, set: CharSet)
    ensures
        text::pieces(s, set).len() > 0,
    decreases s.len(),
{
    if s.len() > 0 {
        lemma_some_piece(s.drop_last(), set);
    }
}

fn read_clock_word(word: &str) -> (r: Option<(u32, u32)>)
    ensures
        match r {
            Some((hour, minute)) => clock_of_word(word@) == Some((hour as nat, minute as nat))
                && hour < 24 && minute < 60,
            None => clock_of_word(word@) is None,
        },
{
    let parts = text::split(word, CharSet::Only(':'));
    proof {
        lemma_some_piece(word@, CharSet::Only(':'));
        assert(parts.deep_view()[0] == parts@[0]@);
        if parts@.len() > 1 {
            assert(parts.deep_view()[1] == parts@[1]@);
        }
    }
    let second = if parts.len() > 1 {
        Some(parts[1].clone())
    } else {
        None
    };
    nl::read_clock_groups(&(Some(parts[0].clone()), second))
}

/// The hour and minute in a text.
fn parse_hour_minute(value: &str) -> (r: Option<(u32, u32)>)
    ensures
        match r {
            Some((hour, minute)) => clock_in(value@) == Some((hour as nat, minute as nat)) && hour
                < 24 && minute < 60,
            None => clock_in(value@) is None,
        },
{
    let words = text::split_words(value);
    let ghost all = words.deep_view();
    let mut i: usize = 0;
    assert(all.skip(0) =~= all);
    while i < words.len()
        invariant
            i <= words@.len(),
            all == words.deep_view(),
            all == text::words(value@),
            first_with_digit(all) == first_with_digit(all.skip(i as int)),
        decreases words@.len() - i,
    {
        assert(all.skip(i as int)[0] == words@[i as int]@);
        assert(all.skip(i as int).drop_first() =~= all.skip(i + 1));
        if text::has_digit(words[i].as_str()) {
            return read_clock_word(words[i].as_str());
        }
        i += 1;
    }
    None
}

/// The moment that a local time denotes in Zurich, the first one if there are two.
pub open spec fn zurich_moment(local: LocalDateTime) -> Result<FixedDateTime, Seq<char>> {
    match tags::earliest(time::zurich_local(local)) {
        Some(t) => Ok(t),
        None => Err("datetime is invalid in Europe/Zurich timezone: "@ + time::naive_text(local)),
    }
}

/// The moment that a local time denotes in Zurich.
fn map_zurich_naive(local: LocalDateTime) -> (r: Result<FixedDateTime, Error>)
    ensures
        error::outcome(r) == zurich_moment(local),
{
    match tags::first_moment(time::zurich_from_local(local)) {
        Some(t) => Ok(t),
        None => {
            let mut message = "datetime is invalid in Europe/Zurich timezone: ".to_owned();
            let shown = time::write_naive(local);
            message.append(shown.as_str());
            Err(error::failure(message))
        },
    }
}

/// The moment of an hour and minute on the next day, where the calendar has that day.
pub open spec fn tomorrow_at(now: FixedDateTime, clock: (nat, nat)) -> Result<
    FixedDateTime,
    Seq<char>,
> {
    let day = now.local_day() + 1;
    if time::MIN_DAY <= day <= time::MAX_DAY {
        zurich_moment(LocalDateTime::of_parts(day, 3600 * clock.0 as int + 60 * clock.1 as int, 0))
    } else {
        Err("failed to compute tomorrow date"@)
    }
}

/// The moment that the argument of a search denotes at a given time: now, a time with or
/// without an offset, or tomorrow at some hour, by default at six. It is told by Zurich's
/// clock.
pub open spec fn moment_of(value: Option<Seq<char>>, now: FixedDateTime) -> Result<
    FixedDateTime,
    Seq<char>,
> {
    if nl::asks_now(value) {
        Ok(now)
    } else {
        let t = text::trimmed(value->0);
        let lower = text::lowered(t);
        match time::rfc3339_value(t) {
            Some(at) => Ok(time::zurich(at)),
            None => match nl::short_time(t) {
                Some(local) => zurich_moment(local),
                None => if text::contains(lower, "tomorrow"@) {
                    tomorrow_at(
                        now,
                        match clock_in(lower) {
                            Some(clock) => clock,
                            None => (6, 0),
                        },
                    )
                } else {
                    Err("unsupported datetime value: "@ + t)
                },
            },
        }
    }
}

/// The moment that the argument of a search denotes at a given time.
pub fn parse_datetime_value_at(input: Option<&str>, now: FixedDateTime) -> (r: Result<
    FixedDateTime,
    Error,
>)
    ensures
        error::outcome(r) == moment_of(input.deep_view(), now),
{
    let value = match input {
        Some(v) => text::trim(v),
        None => return Ok(now),
    };
    let lower = text::to_lower(value.as_str());
    if value.as_str().is_empty() || text::same(lower.as_str(), "earliest") || text::same(
        lower.as_str(),
        "now",
    ) {
        return Ok(now);
    }
    match time::parse_rfc3339(value.as_str()) {
        Some(at) => return Ok(time::to_zurich(at)),
        None => {},
    }
    match nl::parse_short_time(value.as_str()) {
        Some(local) => return map_zurich_naive(local),
        None => {},
    }
    if text::has(lower.as_str(), "tomorrow") {
        let (hour, minute) = match parse_hour_minute(lower.as_str()) {
            Some(clock) => clock,
            None => (6, 0),
        };
        match LocalDateTime::at(now.day() + 1, hour, minute) {
            Some(local) => map_zurich_naive(local),
            None => Err(error::failure("failed to compute tomorrow date".to_owned())),
        }
    } else {
        let mut message = "unsupported datetime value: ".to_owned();
        message.append(value.as_str());
        Err(error::failure(message))
    }
}

/// The moment that the argument of a search denotes.
pub fn parse_datetime_value(input: Option<&str>) -> (r: Result<FixedDateTime, Error>)
    ensures
        exists|now: FixedDateTime|
            time::zurich_reading(now) && error::outcome(r) == #[trigger] moment_of(
                input.deep_view(),
                now,
            ),
{
    let now = time::now_fixed();
    parse_datetime_value_at(input, now)
}

// ---------------------------------------------------------------------------
// Modes
// ---------------------------------------------------------------------------

/// The mode that an argument names; the journey planner's word for ships is known too.
pub open spec fn mode_named(token: Seq<char>) -> Option<TransportMode> {
    if text::lowered(text::trimmed(token)) == "water"@ {
        Some(TransportMode::Ship)
    } else {
        nl::mode_named(token)
    }
}

/// The mode that an argument names.
pub fn parse_mode_token(token: &str) -> (r: Option<TransportMode>)
    ensures
        r == mode_named(token@),
{
    let trimmed = text::trim(token);
    let lower = text::to_lower(trimmed.as_str());
    if text::same(lower.as_str(), "water") {
        Some(TransportMode::Ship)
    } else {
        nl::parse_mode_token(token)
    }
}

/// The modes that arguments name, each once.
pub open spec fn modes_named(tokens: Seq<Seq<char>>) -> Seq<TransportMode>
    decreases tokens.len(),
{
    if tokens.len() == 0 {
        Seq::empty()
    } else {
        nl::with_mode(modes_named(tokens.drop_last()), mode_named(tokens.last()))
    }
}

/// The modes that are asked for; by default all.
pub open spec fn modes_asked(names: Option<Seq<Seq<char>>>) -> Seq<TransportMode> {
    match names {
        Some(tokens) if modes_named(tokens).len() > 0 => modes_named(tokens),
        _ => seq![TransportMode::All],
    }
}

/// The modes that are asked for.
pub fn parse_structured_modes(modes: Option<Vec<String>>) -> (r: Vec<TransportMode>)
    ensures
        r@ == modes_asked(modes.deep_view()),
{
    match &modes {
        Some(tokens) => {
            let ghost all = tokens.deep_view();
            let mut named: Vec<TransportMode> = Vec::new();
            let mut i: usize = 0;
            assert(named@ =~= modes_named(all.take(0)));
            while i < tokens.len()
                invariant
                    i <= tokens@.len(),
                    all == tokens.deep_view(),
                    named@ == modes_named(all.take(i as int)),
                decreases tokens@.len() - i,
            {
                assert(all.take(i + 1).drop_last() =~= all.take(i as int));
                assert(all.take(i + 1).last() == tokens@[i as int]@);
                nl::add_mode(&mut named, parse_mode_token(tokens[i].as_str()));
                i += 1;
            }
            assert(all.take(i as int) =~= all);
            if named.len() > 0 {
                return named;
            }
        },
        None => {},
    }
    let mut all: Vec<TransportMode> = Vec::new();
    all.push(TransportMode::All);
    assert(all@ =~= seq![TransportMode::All]);
    all
}

proof fn lemma_modes_named(tokens: Seq<Seq<char>>)
    ensures
        forall|i: int, j: int|
            0 <= i < j < modes_named(tokens).len() ==> #[trigger] modes_named(tokens)[i]
                != #[trigger] modes_named(tokens)[j],
    decreases tokens.len(),
{
    if tokens.len() > 0 {
        lemma_modes_named(tokens.drop_last());
        let before = modes_named(tokens.drop_last());
        let after = modes_named(tokens);
        assert forall|i: int, j: int| 0 <= i < j < after.len() implies #[trigger] after[i]
            != #[trigger] after[j] by {
            if j == before.len() {
                assert(before[i] == after[i]);
                assert(before.contains(before[i]));
            }
        }
    }
}

/// Some mode is always asked for, and none of them twice.
pub proof fn law_modes_are_distinct(names: Option<Seq<Seq<char>>>)
    ensures
        modes_asked(names).len() > 0,
        forall|i: int, j: int|
            0 <= i < j < modes_asked(names).len() ==> #[trigger] modes_asked(names)[i]
                != #[trigger] modes_asked(names)[j],
{
    match names {
        Some(tokens) => lemma_modes_named(tokens),
        None => {},
    }
}

// ---------------------------------------------------------------------------
// What the arguments of a search mean
// ---------------------------------------------------------------------------

/// Nothing, blanks, "now" and "earliest" ask for the current time. A time with an offset is
/// its own instant, told on Zurich's clock; one without is told by that clock, and of two
/// such moments the first is meant.
pub proof fn law_times_are_told_in_zurich(value: Seq<char>, now: FixedDateTime)
    ensures
        ({
            let t = text::trimmed(value);
            let l = text::lowered(t);
            let asks = t.len() == 0 || l == seq!['n', 'o', 'w'] || l == seq![
                'e',
                'a',
                'r',
                'l',
                'i',
                'e',
                's',
                't',
            ];
            let r = moment_of(Some(value), now);
            let local = if time::naive_value(t, "%Y-%m-%dT%H:%M"@) is Some {
                time::naive_value(t, "%Y-%m-%dT%H:%M"@)
            } else {
                time::naive_value(t, "%Y-%m-%d %H:%M"@)
            };
            &&& moment_of(None, now) == Ok::<FixedDateTime, Seq<char>>(now)
            &&& asks ==> r == Ok::<FixedDateTime, Seq<char>>(now)
            &&& !asks && time::rfc3339_value(t) is Some ==> r == Ok::<FixedDateTime, Seq<char>>(
                FixedDateTime::of_parts(
                    time::rfc3339_value(t)->0.unix(),
                    time::rfc3339_value(t)->0.subsec(),
                    time::zurich_offset(time::rfc3339_value(t)->0.unix()),
                ),
            )
            &&& !asks && time::rfc3339_value(t) is None && local is Some ==> match time::zurich_local(
                local->0,
            ) {
                time::LocalMapping::Single(m) => r == Ok::<FixedDateTime, Seq<char>>(m),
                time::LocalMapping::Ambiguous(m, _) => r == Ok::<FixedDateTime, Seq<char>>(m),
                time::LocalMapping::Missing => r is Err,
            }
            &&& !asks && time::rfc3339_value(t) is None && local is None && !text::contains(
                l,
                "tomorrow"@,
            ) ==> r == Err::<FixedDateTime, Seq<char>>("unsupported datetime value: "@ + t)
        }),
{
    nl::law_words_for_now(value, now);
}

/// "Tomorrow" is the day after the present one by the local clock, at the hour and minute
/// that are told, or else at six.
pub proof fn law_tomorrow_is_the_next_day(value: Seq<char>, now: FixedDateTime)
    requires
        !nl::asks_now(Some(value)),
        time::rfc3339_value(text::trimmed(value)) is None,
        time::naive_value(text::trimmed(value), "%Y-%m-%dT%H:%M"@) is None,
        time::naive_value(text::trimmed(value), "%Y-%m-%d %H:%M"@) is None,
        text::contains(text::lowered(text::trimmed(value)), "tomorrow"@),
        time::MIN_DAY <= now.local_day() + 1 <= time::MAX_DAY,
    ensures
        ({
            let clock = clock_in(text::lowered(text::trimmed(value)));
            let day = (now.unix() + now.east()) / 86400 + 1;
            let local = LocalDateTime::of_parts(
                day,
                match clock {
                    Some((hour, minute)) => 3600 * hour as int + 60 * minute as int,
                    None => 21600,
                },
                0,
            );
            match time::zurich_local(local) {
                time::LocalMapping::Single(m) => moment_of(Some(value), now) == Ok::<
                    FixedDateTime,
                    Seq<char>,
                >(m),
                time::LocalMapping::Ambiguous(m, _) => moment_of(Some(value), now) == Ok::<
                    FixedDateTime,
                    Seq<char>,
                >(m),
                time::LocalMapping::Missing => moment_of(Some(value), now) is Err,
            }
        }),
{
}

/// The hour is told by the first word with a digit: its number before the first colon, and
/// the minute by the number behind it.
pub proof fn law_first_number_tells_the_hour(value: Seq<char>, k: int)
    requires
        0 <= k < text::words(value).len(),
        text::any_digit(text::words(value)[k]),
        forall|j: int| 0 <= j < k ==> !text::any_digit(#[trigger] text::words(value)[j]),
    ensures
        ({
            let parts = text::pieces(text::words(value)[k], CharSet::Only(':'));
            &&& parts.len() == 1 ==> clock_in(value) == nl::clock_of_groups((Some(parts[0]), None))
            &&& parts.len() > 1 ==> clock_in(value) == nl::clock_of_groups(
                (Some(parts[0]), Some(parts[1])),
            )
        }),
{
    lemma_first_with_digit(text::words(value), k);
    text::law_pieces_make_up_the_text(text::words(value)[k], ':');
}

proof fn lemma_first_with_digit(words: Seq<Seq<char>>, k: int)
    requires
        0 <= k < words.len(),
        text::any_digit(words[k]),
        forall|j: int| 0 <= j < k ==> !text::any_digit(#[trigger] words[j]),
    ensures
        first_with_digit(words) == Some(words[k]),
    decreases words.len(),
{
    if k > 0 {
        let rest = words.drop_first();
        assert forall|j: int| 0 <= j < k - 1 implies !text::any_digit(#[trigger] rest[j]) by {
            assert(rest[j] == words[j + 1]);
        }
        assert(!text::any_digit(words[0]));
        lemma_first_with_digit(rest, k - 1);
    }
}

/// A mode is asked for exactly if some argument names it: by its usual words, or as
/// "water". Without any that does, all modes are asked for.
pub proof fn law_modes_that_are_asked_for(tokens: Seq<Seq<char>>, mode: TransportMode)
    ensures
        modes_asked(None) == seq![TransportMode::All],
        (exists|i: int| #![trigger tokens[i]] 0 <= i < tokens.len() && mode_named(tokens[i]) is Some)
            ==> (modes_asked(Some(tokens)).contains(mode) <==> exists|i: int|
            #![trigger tokens[i]]
            0 <= i < tokens.len() && (nl::mode_named(tokens[i]) == Some(mode) || (mode
                == TransportMode::Ship && text::lowered(text::trimmed(tokens[i])) == "water"@))),
        (forall|i: int|
            #![trigger tokens[i]]
            0 <= i < tokens.len() ==> mode_named(tokens[i]) is None) ==> modes_asked(Some(tokens))
            == seq![TransportMode::All],
{
    reveal_strlit("water");
    assert("water"@.len() == 5 && "water"@[0] == 'w');
    assert forall|i: int| #![trigger tokens[i]] 0 <= i < tokens.len() implies (mode_named(tokens[i])
        == Some(mode) <==> (nl::mode_named(tokens[i]) == Some(mode) || (mode == TransportMode::Ship
        && text::lowered(text::trimmed(tokens[i])) == "water"@))) by {
        reveal_strlit("rail");
        reveal_strlit("train");
        reveal_strlit("bus");
        reveal_strlit("tram");
        reveal_strlit("ship");
        reveal_strlit("boat");
        reveal_strlit("cableway");
        reveal_strlit("cable");
        reveal_strlit("funicular");
        reveal_strlit("standseilbahn");
        reveal_strlit("all");
        assert("rail"@.len() == 4);
        assert("train"@.len() == 5 && "train"@[0] == 't');
        assert("bus"@.len() == 3);
        assert("tram"@.len() == 4);
        assert("ship"@.len() == 4);
        assert("boat"@.len() == 4);
        assert("cableway"@.len() == 8);
        assert("cable"@.len() == 5 && "cable"@[0] == 'c');
        assert("funicular"@.len() == 9);
        assert("standseilbahn"@.len() == 13);
        assert("all"@.len() == 3);
    }
    lemma_modes_named_hold(tokens, mode);
    if exists|i: int| #![trigger tokens[i]] 0 <= i < tokens.len() && mode_named(tokens[i]) is Some {
        let i = choose|i: int|
            #![trigger tokens[i]]
            0 <= i < tokens.len() && mode_named(tokens[i]) is Some;
        lemma_modes_named_hold(tokens, mode_named(tokens[i])->0);
        assert(modes_named(tokens).contains(mode_named(tokens[i])->0));
    }
    if modes_named(tokens).len() > 0 {
        let m = modes_named(tokens)[0];
        assert(modes_named(tokens).contains(m));
        lemma_modes_named_hold(tokens, m);
    }
}

proof fn lemma_modes_named_hold(tokens: Seq<Seq<char>>, mode: TransportMode)
    ensures
        modes_named(tokens).contains(mode) <==> exists|i: int|
            #![trigger tokens[i]]
            0 <= i < tokens.len() && mode_named(tokens[i]) == Some(mode),
    decreases tokens.len(),
{
    if tokens.len() > 0 {
        let some = tokens.drop_last();
        let n = tokens.len() - 1;
        lemma_modes_named_hold(some, mode);
        let (a, b) = (modes_named(some), modes_named(tokens));
        if exists|i: int|
            #![trigger tokens[i]]
            0 <= i < tokens.len() && mode_named(tokens[i]) == Some(mode) {
            let i = choose|i: int|
                #![trigger tokens[i]]
                0 <= i < tokens.len() && mode_named(tokens[i]) == Some(mode);
            if i < n {
                assert(some[i] == tokens[i]);
                let m = choose|m: int| 0 <= m < a.len() && a[m] == mode;
                assert(b[m] == mode);
            } else if !a.contains(mode) {
                assert(b[b.len() - 1] == mode);
            }
        }
        if b.contains(mode) {
            let m = choose|m: int| 0 <= m < b.len() && b[m] == mode;
            if m < a.len() {
                assert(a[m] == mode);
                let i = choose|i: int|
                    #![trigger some[i]]
                    0 <= i < some.len() && mode_named(some[i]) == Some(mode);
                assert(tokens[i] == some[i]);
            } else {
                assert(mode_named(tokens[n]) == Some(mode));
            }
        }
    }
}

} // verus!
