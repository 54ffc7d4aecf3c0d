//! Which formations to ask for, and what to read from the answers.

use vstd::prelude::*;

use crate::error;
use crate::error::Error;
use crate::json;
use crate::json::{Json, JsonView};
use crate::models::{Trip, TripLeg, TripLegView, TripView};
use crate::pattern;
use crate::text;
use crate::text::CharSet;
use crate::time;
use crate::time::{FixedDateTime, MAX_DAY, MIN_DAY};

verus! {

// ---------------------------------------------------------------------------
// Train numbers
// ---------------------------------------------------------------------------

/// A number without leading zeros.
pub open spec fn bare_number(digits: Seq<char>) -> Seq<char> {
    let t = text::stripped_start(digits, '0');
    if t.len() == 0 {
        "0"@
    } else {
        t
    }
}

/// A number without leading zeros.
pub fn strip_zeros(digits: &str) -> (r: String)
    ensures
        r@ == bare_number(digits@),
{
    let t = text::strip_start(digits, '0');
    if t.as_str().is_empty() {
        "0".to_owned()
    } else {
        t
    }
}

/// A list with the numbers that are not in it yet.
pub open spec fn with_numbers(list: Seq<Seq<char>>, numbers: Seq<Seq<char>>) -> Seq<Seq<char>>
    decreases numbers.len(),
{
    if numbers.len() == 0 {
        list
    } else {
        let before = with_numbers(list, numbers.drop_last());
        let number = bare_number(numbers.last());
        if before.contains(number) {
            before
        } else {
            before.push(number)
        }
    }
}

/// Adds the numbers that are not in a list yet.
pub fn add_numbers(list: &mut Vec<String>, numbers: &Vec<String>)
    ensures
        final(list).deep_view() == with_numbers(old(list).deep_view(), numbers.deep_view()),
{
    let ghost first = list.deep_view();
    let ghost all = numbers.deep_view();
    let mut i: usize = 0;
    assert(with_numbers(first, all.take(0)) == first);
    while i < numbers.len()
        invariant
            i <= numbers@.len(),
            all == numbers.deep_view(),
            list.deep_view() == with_numbers(first, all.take(i as int)),
        decreases numbers@.len() - i,
    {
        assert(all.take(i + 1).drop_last() =~= all.take(i as int));
        assert(all.take(i + 1).last() == numbers@[i as int]@);
        let number = strip_zeros(numbers[i].as_str());
        if !text::lists(list, number.as_str()) {
            let ghost before = list.deep_view();
            let ghost view = number@;
            list.push(number);
            assert(list.deep_view() =~= before.push(view));
        }
        i += 1;
    }
    assert(all.take(i as int) =~= all);
}

/// The pattern of a train number.
pub open spec fn numbers_in(text: Seq<char>) -> Seq<Seq<char>> {
    match pattern::pattern_matches("\\d{1,6}"@, text) {
        Some(found) => found,
        None => Seq::empty(),
    }
}

/// Adds the numbers in a text.
fn add_numbers_in(list: &mut Vec<String>, source: &str)
    ensures
        final(list).deep_view() == with_numbers(old(list).deep_view(), numbers_in(source@)),
{
    match pattern::find_all("\\d{1,6}", source) {
        Some(found) => add_numbers(list, &found),
        None => {},
    }
}

/// A list with the numbers in the line and the label of a leg.
pub open spec fn with_leg_numbers(list: Seq<Seq<char>>, leg: TripLegView) -> Seq<Seq<char>> {
    let first = match leg.line {
        Some(line) => with_numbers(list, numbers_in(line)),
        None => list,
    };
    with_numbers(first, numbers_in(leg.service))
}

/// The numbers in the lines and labels of legs.
pub open spec fn leg_numbers(legs: Seq<TripLegView>) -> Seq<Seq<char>>
    decreases legs.len(),
{
    if legs.len() == 0 {
        Seq::empty()
    } else {
        with_leg_numbers(leg_numbers(legs.drop_last()), legs.last())
    }
}

/// A segment of a reference that is a number of at most six digits.
pub open spec fn number_segment(s: Seq<char>) -> bool {
    s.len() > 0 && text::all_digits(s) && s.len() <= 6
}

/// The numbers in a reference.
pub open spec fn number_segments(parts: Seq<Seq<char>>) -> Seq<Seq<char>>
    decreases parts.len(),
{
    if parts.len() == 0 {
        Seq::empty()
    } else {
        let before = number_segments(parts.drop_last());
        if number_segment(parts.last()) {
            before.push(parts.last())
        } else {
            before
        }
    }
}

fn keep_number_segments(parts: &Vec<String>) -> (r: Vec<String>)
    ensures
        r.deep_view() == number_segments(parts.deep_view()),
{
    let ghost all = parts.deep_view();
    let mut out: Vec<String> = Vec::new();
    let mut i: usize = 0;
    assert(out.deep_view() =~= number_segments(all.take(0)));
    while i < parts.len()
        invariant
            i <= parts@.len(),
            all == parts.deep_view(),
            out.deep_view() == number_segments(all.take(i as int)),
        decreases parts@.len() - i,
    {
        assert(all.take(i + 1).drop_last() =~= all.take(i as int));
        assert(all.take(i + 1).last() == parts@[i as int]@);
        let s = parts[i].as_str();
        let n: usize = s.unicode_len();
        if n > 0 && n <= 6 && text::only_digits(s) {
            let ghost before = out.deep_view();
            out.push(parts[i].clone());
            assert(out.deep_view() =~= before.push(parts@[i as int]@));
        }
        i += 1;
    }
    assert(all.take(i as int) =~= all);
    out
}

/// The train numbers that a trip may go by.
pub open spec fn train_numbers(trip: TripView) -> Seq<Seq<char>> {
    with_numbers(
        leg_numbers(trip.legs),
        number_segments(text::pieces(trip.id, CharSet::NotAlnum)),
    )
}

/// The train numbers that a trip may go by.
pub fn extract_train_number_candidates(trip: &Trip) -> (r: Vec<String>)
    ensures
        r.deep_view() == train_numbers(trip.deep_view()),
{
    let ghost all = trip.deep_view().legs;
    let mut list: Vec<String> = Vec::new();
    let mut i: usize = 0;
    assert(list.deep_view() =~= leg_numbers(all.take(0)));
    while i < trip.legs.len()
        invariant
            i <= trip.legs@.len(),
            all == trip.deep_view().legs,
            list.deep_view() == leg_numbers(all.take(i as int)),
        decreases trip.legs@.len() - i,
    {
        assert(all.take(i + 1).drop_last() =~= all.take(i as int));
        assert(all.take(i + 1).last() == trip.legs@[i as int].deep_view());
        match &trip.legs[i].line {
            Some(line) => add_numbers_in(&mut list, line.as_str()),
            None => {},
        }
        add_numbers_in(&mut list, trip.legs[i].service.as_str());
        i += 1;
    }
    assert(all.take(i as int) =~= all);
    let parts = text::split(trip.id.as_str(), CharSet::NotAlnum);
    add_numbers(&mut list, &keep_number_segments(&parts));
    list
}

// ---------------------------------------------------------------------------
// Operators and endpoints
// ---------------------------------------------------------------------------

/// The operators of legs, as far as they are known.
pub open spec fn operators_of(legs: Seq<TripLegView>) -> Seq<Seq<char>>
    decreases legs.len(),
{
    if legs.len() == 0 {
        Seq::empty()
    } else {
        match legs.last().operator {
            Some(name) => operators_of(legs.drop_last()).push(name),
            None => operators_of(legs.drop_last()),
        }
    }
}

fn collect_operators(legs: &Vec<TripLeg>) -> (r: Vec<String>)
    ensures
        r.deep_view() == operators_of(legs.deep_view()),
{
    let ghost all = legs.deep_view();
    let mut out: Vec<String> = Vec::new();
    let mut i: usize = 0;
    assert(out.deep_view() =~= operators_of(all.take(0)));
    while i < legs.len()
        invariant
            i <= legs@.len(),
            all == legs.deep_view(),
            out.deep_view() == operators_of(all.take(i as int)),
        decreases legs@.len() - i,
    {
        assert(all.take(i + 1).drop_last() =~= all.take(i as int));
        assert(all.take(i + 1).last() == legs@[i as int].deep_view());
        match &legs[i].operator {
            Some(name) => {
                let ghost before = out.deep_view();
                out.push(name.clone());
                assert(out.deep_view() =~= before.push(name@));
            },
            None => {},
        }
        i += 1;
    }
    assert(all.take(i as int) =~= all);
    out
}

/// The code of the railway undertaking that the operators of legs point to.
pub open spec fn undertaking(legs: Seq<TripLegView>) -> Option<Seq<char>> {
    let names = text::lowered(text::joined(operators_of(legs), " "@));
    if text::contains(names, "bls"@) {
        Some("BLSP"@)
    } else if text::contains(names, "sob"@) {
        Some("SOB"@)
    } else if text::contains(names, "thurbo"@) {
        Some("THURBO"@)
    } else if text::contains(names, "rhb"@) {
        Some("RhB"@)
    } else if text::contains(names, "zb"@) {
        Some("ZB"@)
    } else if text::contains(names, "tpf"@) {
        Some("TPF"@)
    } else if text::contains(names, "trn"@) {
        Some("TRN"@)
    } else if text::contains(names, "mbc"@) {
        Some("MBC"@)
    } else if text::contains(names, "oebb"@) || text::contains(names, "öbb"@) {
        Some("OeBB"@)
    } else if text::contains(names, "vdbb"@) {
        Some("VDBB"@)
    } else if text::contains(names, "sbb"@) || text::contains(names, "cff"@) || text::contains(
        names,
        "ffs"@,
    ) {
        Some("SBBP"@)
    } else {
        None
    }
}

/// The code of the railway undertaking that runs a trip.
pub fn infer_evu(trip: &Trip) -> (r: Option<&'static str>)
    ensures
        r.deep_view() == undertaking(trip.deep_view().legs),
{
    let listed = text::join(&collect_operators(&trip.legs), " ");
    let lower = text::to_lower(listed.as_str());
    let names = lower.as_str();
    if text::has(names, "bls") {
        Some("BLSP")
    } else if text::has(names, "sob") {
        Some("SOB")
    } else if text::has(names, "thurbo") {
        Some("THURBO")
    } else if text::has(names, "rhb") {
        Some("RhB")
    } else if text::has(names, "zb") {
        Some("ZB")
    } else if text::has(names, "tpf") {
        Some("TPF")
    } else if text::has(names, "trn") {
        Some("TRN")
    } else if text::has(names, "mbc") {
        Some("MBC")
    } else if text::has(names, "oebb") || text::has(names, "öbb") {
        Some("OeBB")
    } else if text::has(names, "vdbb") {
        Some("VDBB")
    } else if text::has(names, "sbb") || text::has(names, "cff") || text::has(names, "ffs") {
        Some("SBBP")
    } else {
        None
    }
}

/// Where to ask: formations at stops are for today only, so for a later day the other
/// kinds are asked first.
pub open spec fn endpoints_for(base: Seq<char>, day: int, today: int) -> Seq<Seq<char>> {
    let kind = "formations_stop_based"@;
    if day > today && text::contains(base, kind) {
        text::uniques(
            seq![
                text::replaced(base, kind, "formations_vehicle_based"@),
                text::replaced(base, kind, "formations_full"@),
                base,
            ],
        )
    } else {
        seq![base]
    }
}

/// Where to ask for the formation of a train on a day.
pub fn formation_endpoint_candidates(base_endpoint: &str, day: i64, today: i64) -> (r: Vec<String>)
    ensures
        r.deep_view() == endpoints_for(base_endpoint@, day as int, today as int),
{
    let kind = "formations_stop_based";
    proof {
        reveal_strlit("formations_stop_based");
    }
    if day > today && text::has(base_endpoint, kind) {
        let mut list: Vec<String> = Vec::new();
        list.push(text::replace(base_endpoint, kind, "formations_vehicle_based"));
        list.push(text::replace(base_endpoint, kind, "formations_full"));
        list.push(base_endpoint.to_owned());
        assert(list.deep_view() =~= seq![
            text::replaced(base_endpoint@, kind@, "formations_vehicle_based"@),
            text::replaced(base_endpoint@, kind@, "formations_full"@),
            base_endpoint@,
        ]);
        text::keep_unique(&list)
    } else {
        let mut list: Vec<String> = Vec::new();
        list.push(base_endpoint.to_owned());
        assert(list.deep_view() =~= seq![base_endpoint@]);
        list
    }
}

// ---------------------------------------------------------------------------
// The search
// ---------------------------------------------------------------------------

/// A leg by rail.
pub open spec fn by_rail(leg: TripLegView) -> bool {
    text::lowered(leg.mode) == "rail"@ || text::lowered(leg.mode) == "train"@
}

/// The first leg by rail.
pub open spec fn first_rail_leg(legs: Seq<TripLegView>) -> Option<TripLegView>
    decreases legs.len(),
{
    if legs.len() == 0 {
        None
    } else if by_rail(legs[0]) {
        Some(legs[0])
    } else {
        first_rail_leg(legs.drop_first())
    }
}

/// The first leg by rail.
pub fn find_first_rail_leg(trip: &Trip) -> (r: Option<&TripLeg>)
    ensures
        match r {
            Some(leg) => first_rail_leg(trip.deep_view().legs) == Some(leg.deep_view()),
            None => first_rail_leg(trip.deep_view().legs) is None,
        },
{
    let ghost all = trip.deep_view().legs;
    let mut i: usize = 0;
    assert(all.skip(0) =~= all);
    while i < trip.legs.len()
        invariant
            i <= trip.legs@.len(),
            all == trip.deep_view().legs,
            first_rail_leg(all) == first_rail_leg(all.skip(i as int)),
        decreases trip.legs@.len() - i,
    {
        assert(all.skip(i as int)[0] == trip.legs@[i as int].deep_view());
        assert(all.skip(i as int).drop_first() =~= all.skip(i + 1));
        let mode = text::to_lower(trip.legs[i].mode.as_str());
        if text::same(mode.as_str(), "rail") || text::same(mode.as_str(), "train") {
            return Some(&trip.legs[i]);
        }
        i += 1;
    }
    None
}

/// What to ask for the formation of a trip.
#[derive(Debug)]
pub struct FormationQuery {
    /// The code of the railway undertaking.
    pub evu: String,
    /// The day, as a text.
    pub operation_date: String,
    /// The train numbers to try, in order.
    pub train_numbers: Vec<String>,
    /// Where to ask, in order; at each place all train numbers are tried.
    pub endpoints: Vec<String>,
    /// The station where the train is boarded.
    pub station: String,
    /// When it leaves there.
    pub departure: FixedDateTime,
}

/// The view of a [`FormationQuery`].
#[verifier::ext_equal]
pub struct FormationQueryView {
    pub evu: Seq<char>,
    pub operation_date: Seq<char>,
    pub train_numbers: Seq<Seq<char>>,
    pub endpoints: Seq<Seq<char>>,
    pub station: Seq<char>,
    pub departure: FixedDateTime,
}

impl DeepView for FormationQuery {
    type V = FormationQueryView;

    open spec fn deep_view(&self) -> FormationQueryView {
        FormationQueryView {
            evu: self.evu@,
            operation_date: self.operation_date@,
            train_numbers: self.train_numbers.deep_view(),
            endpoints: self.endpoints.deep_view(),
            station: self.station@,
            departure: self.departure,
        }
    }
}

/// What to ask for the formation of a trip: nothing, if no leg is by rail or no train
/// number is known.
pub open spec fn query_for(trip: TripView, endpoint: Seq<char>, today: int) -> Option<
    FormationQueryView,
> {
    match first_rail_leg(trip.legs) {
        Some(leg) if train_numbers(trip).len() > 0 => {
            let day = leg.departure.expected.local_day();
            Some(
                FormationQueryView {
                    evu: match undertaking(trip.legs) {
                        Some(code) => code,
                        None => "SBBP"@,
                    },
                    operation_date: time::date_text(day),
                    train_numbers: train_numbers(trip),
                    endpoints: endpoints_for(endpoint, day, today),
                    station: leg.from.station,
                    departure: leg.departure.scheduled,
                },
            )
        },
        _ => None,
    }
}

/// The day on which a trip boards its first train lies within the calendar.
pub open spec fn boards_in_calendar(trip: TripView) -> bool {
    first_rail_leg(trip.legs) matches Some(leg) ==> MIN_DAY
        <= leg.departure.expected.local_day() <= MAX_DAY
}

/// Whether the day on which a trip boards its first train lies within the calendar.
pub fn check_calendar(trip: &Trip) -> (r: bool)
    ensures
        r == boards_in_calendar(trip.deep_view()),
{
    match find_first_rail_leg(trip) {
        Some(leg) => {
            let day: i64 = leg.departure.expected.day();
            MIN_DAY <= day && day <= MAX_DAY
        },
        None => true,
    }
}

/// What to ask for the formation of a trip.
pub fn plan_formation_search(trip: &Trip, endpoint: &str, today: i64) -> (r: Option<FormationQuery>)
    requires
        boards_in_calendar(trip.deep_view()),
    ensures
        r.deep_view() == query_for(trip.deep_view(), endpoint@, today as int),
{
    match find_first_rail_leg(trip) {
        Some(leg) => {
            let numbers = extract_train_number_candidates(trip);
            if numbers.len() == 0 {
                return None;
            }
            let day: i64 = leg.departure.expected.day();
            let evu = match infer_evu(trip) {
                Some(code) => code.to_owned(),
                None => "SBBP".to_owned(),
            };
            Some(
                FormationQuery {
                    evu,
                    operation_date: time::format_date(day),
                    train_numbers: numbers,
                    endpoints: formation_endpoint_candidates(endpoint, day, today),
                    station: leg.from.station.clone(),
                    departure: leg.departure.scheduled,
                },
            )
        },
        None => None,
    }
}

/// What is known of the formation service.
#[derive(Debug)]
pub struct FormationClient {
    /// Where questions are sent.
    pub endpoint: String,
    /// The token that they carry.
    pub token: String,
}

impl FormationClient {
    /// A client of the service.
    pub fn new(endpoint: String, token: String) -> (r: FormationClient)
        ensures
            r.endpoint@ == endpoint@,
            r.token@ == token@,
    {
        FormationClient { endpoint, token }
    }

    /// The search for the formation of a trip: none, if there is nothing to ask for.
    pub fn wagon_formation_for_trip(&self, trip: &Trip) -> (r: Option<FormationSearch>)
        requires
            boards_in_calendar(trip.deep_view()),
        ensures
            exists|now: FixedDateTime|
                #![trigger now.local_day()]
                time::zurich_reading(now) && match r {
                    Some(search) => {
                        &&& query_for(trip.deep_view(), self.endpoint@, now.local_day()) == Some(
                            search.query(),
                        )
                        &&& search.position() == 0
                    },
                    None => query_for(trip.deep_view(), self.endpoint@, now.local_day()) is None,
                },
    {
        let now = time::now_fixed();
        match plan_formation_search(trip, self.endpoint.as_str(), now.day()) {
            Some(query) => Some(FormationSearch::new(query)),
            None => None,
        }
    }
}

/// What an answer's status means.
#[derive(Debug, Clone, Copy, PartialEq, Eq, Structural)]
pub enum StatusVerdict {
    /// There is no such train here: ask on.
    Skip,
    /// Read the answer.
    Read,
    /// Report the failure.
    Fail,
}

/// What an answer's status means.
pub open spec fn status_verdict(status: u16) -> StatusVerdict {
    if status == 404 || status == 400 {
        StatusVerdict::Skip
    } else if 200 <= status < 300 {
        StatusVerdict::Read
    } else {
        StatusVerdict::Fail
    }
}

/// What an answer's status means.
pub fn judge_status(status: u16) -> (r: StatusVerdict)
    ensures
        r == status_verdict(status),
{
    if status == 404 || status == 400 {
        StatusVerdict::Skip
    } else if 200 <= status && status < 300 {
        StatusVerdict::Read
    } else {
        StatusVerdict::Fail
    }
}

/// The message for a refusal, given its status in words.
pub open spec fn refusal_text(status: Seq<char>) -> Seq<char> {
    "formation API returned status "@ + status
}

/// The failure for a refusal, given its status in words.
pub fn refusal(status: &str) -> (r: Error)
    ensures
        r.deep_view() == refusal_text(status@),
{
    let mut message = "formation API returned status ".to_owned();
    message.append(status);
    error::failure(message)
}

// ---------------------------------------------------------------------------
// Answers
// ---------------------------------------------------------------------------

/// The name of a station for comparison.
pub open spec fn plain_name(value: Seq<char>) -> Seq<char> {
    text::joined(text::words(text::replaced(text::lowered(value), "."@, ""@)), " "@)
}

/// The name of a station for comparison.
pub fn normalize_station_name(value: &str) -> (r: String)
    ensures
        r@ == plain_name(value@),
{
    proof {
        reveal_strlit(".");
    }
    let lower = text::to_lower(value);
    let undotted = text::replace(lower.as_str(), ".", "");
    text::join(&text::split_words(undotted.as_str()), " ")
}

/// The text that a value is.
pub open spec fn text_in(value: Option<JsonView>) -> Option<Seq<char>> {
    match value {
        Some(JsonView::Text(t)) => Some(t),
        _ => None,
    }
}

/// The text at a field of a field of a value.
pub open spec fn text_at_2(value: JsonView, a: Seq<char>, b: Seq<char>) -> Option<Seq<char>> {
    match value.field(a) {
        Some(v) => text_in(v.field(b)),
        None => None,
    }
}

/// The text at a field of a field of a field of a value.
pub open spec fn text_at_3(value: JsonView, a: Seq<char>, b: Seq<char>, c: Seq<char>) -> Option<
    Seq<char>,
> {
    match value.field(a) {
        Some(v) => text_at_2(v, b, c),
        None => None,
    }
}

fn find_text_2<'a>(value: &'a Json, a: &str, b: &str) -> (r: Option<&'a str>)
    ensures
        r.deep_view() == text_at_2(value.deep_view(), a@, b@),
{
    match value.get(a) {
        Some(v) => match v.get(b) {
            Some(t) => t.as_str(),
            None => None,
        },
        None => None,
    }
}

fn find_text_3<'a>(value: &'a Json, a: &str, b: &str, c: &str) -> (r: Option<&'a str>)
    ensures
        r.deep_view() == text_at_3(value.deep_view(), a@, b@, c@),
{
    match value.get(a) {
        Some(v) => find_text_2(v, b, c),
        None => None,
    }
}

/// A number without its sign.
pub open spec fn magnitude(n: int) -> int {
    if n < 0 {
        -n
    } else {
        n
    }
}

/// The notation of the train at a stop, if there is one.
pub open spec fn notation_at(stop: JsonView) -> Option<Seq<char>> {
    match text_at_2(stop, "formationShort"@, "formationShortString"@) {
        Some(t) if text::trimmed(t).len() > 0 => Some(text::trimmed(t)),
        _ => None,
    }
}

/// A stop of the given name.
pub open spec fn stops_at(stop: JsonView, station: Seq<char>) -> bool {
    match text_at_3(stop, "scheduledStop"@, "stopPoint"@, "name"@) {
        Some(name) => plain_name(name) == plain_name(station),
        None => false,
    }
}

/// The seconds between the departure from a stop and a given time, if it has one.
pub open spec fn distance_at(stop: JsonView, departure: FixedDateTime) -> Option<int> {
    match text_at_3(stop, "scheduledStop"@, "stopTime"@, "departureTime"@) {
        Some(t) => match time::rfc3339_value(t) {
            Some(at) => Some(magnitude(time::seconds_apart(at, departure))),
            None => None,
        },
        None => None,
    }
}

/// The best notations among stops.
#[verifier::ext_equal]
pub struct BestView {
    /// At the station, nearest to the departure.
    pub nearest: Option<(int, Seq<char>)>,
    /// At the station, the first.
    pub here: Option<Seq<char>>,
    /// The first of all.
    pub any: Option<Seq<char>>,
}

/// The best notations after one more stop. Of two that are equally near, the first stays.
pub open spec fn better(
    best: BestView,
    stop: JsonView,
    station: Seq<char>,
    departure: FixedDateTime,
) -> BestView {
    match notation_at(stop) {
        Some(notation) => {
            let any = if best.any is Some {
                best.any
            } else {
                Some(notation)
            };
            if !stops_at(stop, station) {
                BestView { any, ..best }
            } else {
                BestView {
                    nearest: match distance_at(stop, departure) {
                        Some(distance) => match best.nearest {
                            Some((nearest, _)) if nearest <= distance => best.nearest,
                            _ => Some((distance, notation)),
                        },
                        None => best.nearest,
                    },
                    here: if best.here is Some {
                        best.here
                    } else {
                        Some(notation)
                    },
                    any,
                }
            }
        },
        None => best,
    }
}

/// The best notations among stops.
pub open spec fn best_among(stops: Seq<JsonView>, station: Seq<char>, departure: FixedDateTime) -> BestView
    decreases stops.len(),
{
    if stops.len() == 0 {
        BestView { nearest: None, here: None, any: None }
    } else {
        better(best_among(stops.drop_last(), station, departure), stops.last(), station, departure)
    }
}

/// The notation of the train that leaves a station, as far as an answer lists stops: that
/// of the nearest departure, or else that of the first stop there, or else the first.
pub open spec fn best_notation(payload: JsonView, station: Seq<char>, departure: FixedDateTime) -> Option<
    Seq<char>,
> {
    match payload.field("formationsAtScheduledStops"@) {
        Some(JsonView::Array(stops)) => {
            let best = best_among(stops, station, departure);
            match best.nearest {
                Some((_, notation)) => Some(notation),
                None => if best.here is Some {
                    best.here
                } else {
                    best.any
                },
            }
        },
        _ => None,
    }
}

fn find_notation_at(stop: &Json) -> (r: Option<String>)
    ensures
        r.deep_view() == notation_at(stop.deep_view()),
{
    match find_text_2(stop, "formationShort", "formationShortString") {
        Some(t) => {
            let trimmed = text::trim(t);
            if trimmed.as_str().is_empty() {
                None
            } else {
                Some(trimmed)
            }
        },
        None => None,
    }
}

fn find_distance_at(stop: &Json, departure: FixedDateTime) -> (r: Option<i64>)
    ensures
        match r {
            Some(distance) => distance_at(stop.deep_view(), departure) == Some(distance as int),
            None => distance_at(stop.deep_view(), departure) is None,
        },
{
    match find_text_3(stop, "scheduledStop", "stopTime", "departureTime") {
        Some(t) => match time::parse_rfc3339(t) {
            Some(at) => {
                let seconds: i64 = time::seconds_between(at, departure);
                if seconds < 0 {
                    Some(-seconds)
                } else {
                    Some(seconds)
                }
            },
            None => None,
        },
        None => None,
    }
}

/// The notation of the train that leaves a station, as far as an answer lists stops.
pub fn find_best_stop_formation_short_string(
    payload: &Json,
    trip_departure_station: &str,
    trip_departure_time: FixedDateTime,
) -> (r: Option<String>)
    ensures
        r.deep_view() == best_notation(
            payload.deep_view(),
            trip_departure_station@,
            trip_departure_time,
        ),
{
    let stops = match payload.get("formationsAtScheduledStops") {
        Some(value) => match value.as_array() {
            Some(stops) => stops,
            None => return None,
        },
        None => return None,
    };
    let ghost all = json::views(stops@);
    let ghost station = trip_departure_station@;
    let ghost departure = trip_departure_time;
    let target = normalize_station_name(trip_departure_station);
    let mut nearest: Option<(i64, String)> = None;
    let mut here: Option<String> = None;
    let mut any: Option<String> = None;
    let mut i: usize = 0;
    while i < stops.len()
        invariant
            i <= stops@.len(),
            all == json::views(stops@),
            target@ == plain_name(station),
            departure == trip_departure_time,
            match nearest {
                Some((distance, notation)) => best_among(
                    all.take(i as int),
                    station,
                    departure,
                ).nearest == Some((distance as int, notation@)),
                None => best_among(all.take(i as int), station, departure).nearest is None,
            },
            here.deep_view() == best_among(all.take(i as int), station, departure).here,
            any.deep_view() == best_among(all.take(i as int), station, departure).any,
        decreases stops@.len() - i,
    {
        assert(all.take(i + 1).drop_last() =~= all.take(i as int));
        assert(all.take(i + 1).last() == stops@[i as int].deep_view());
        let stop = &stops[i];
        match find_notation_at(stop) {
            Some(notation) => {
                if any.is_none() {
                    any = Some(notation.clone());
                }
                let at_station = match find_text_3(stop, "scheduledStop", "stopPoint", "name") {
                    Some(name) => {
                        let plain = normalize_station_name(name);
                        text::same(plain.as_str(), target.as_str())
                    },
                    None => false,
                };
                if at_station {
                    match find_distance_at(stop, trip_departure_time) {
                        Some(distance) => {
                            let keep = match &nearest {
                                Some((d, _)) => *d <= distance,
                                None => false,
                            };
                            if !keep {
                                nearest = Some((distance, notation.clone()));
                            }
                        },
                        None => {},
                    }
                    if here.is_none() {
                        here = Some(notation);
                    }
                }
            },
            None => {},
        }
        i += 1;
    }
    assert(all.take(i as int) =~= all);
    match nearest {
        Some((_, notation)) => Some(notation),
        None => if here.is_some() {
            here
        } else {
            any
        },
    }
}

/// The first text that is not blank in a value: the value itself, the text under one of
/// the usual keys, or the first such text of a list.
pub open spec fn text_within(value: JsonView) -> Option<Seq<char>>
    decreases value, 1nat,
{
    match value {
        JsonView::Text(t) => if text::trimmed(t).len() > 0 {
            Some(text::trimmed(t))
        } else {
            None
        },
        JsonView::Object(fields) => {
            let a = text_under(fields, "text"@);
            let b = text_under(fields, "value"@);
            let c = text_under(fields, "de"@);
            let d = text_under(fields, "fr"@);
            let e = text_under(fields, "it"@);
            if a is Some {
                a
            } else if b is Some {
                b
            } else if c is Some {
                c
            } else if d is Some {
                d
            } else if e is Some {
                e
            } else {
                text_under(fields, "en"@)
            }
        },
        JsonView::Array(items) => text_among(items),
        _ => None,
    }
}

/// The first text that is not blank in the first field under a key.
pub open spec fn text_under(fields: Seq<(Seq<char>, JsonView)>, key: Seq<char>) -> Option<Seq<char>>
    decreases fields, 0nat,
{
    if fields.len() == 0 {
        None
    } else if fields[0].0 == key {
        text_within(fields[0].1)
    } else {
        text_under(fields.drop_first(), key)
    }
}

/// The first text that is not blank in a list.
pub open spec fn text_among(items: Seq<JsonView>) -> Option<Seq<char>>
    decreases items, 0nat,
{
    if items.len() == 0 {
        None
    } else {
        match text_within(items[0]) {
            Some(t) => Some(t),
            None => text_among(items.drop_first()),
        }
    }
}

/// A key under which a notation stands.
pub open spec fn notation_key(key: Seq<char>) -> bool {
    let k = text::lowered(key);
    text::contains(k, "formationshortstring"@) || text::contains(k, "formation_short_string"@)
}

/// The first notation anywhere in a value.
pub open spec fn first_notation(value: JsonView) -> Option<Seq<char>>
    decreases value, 1nat,
{
    match value {
        JsonView::Object(fields) => notation_in_fields(fields),
        JsonView::Array(items) => notation_in_items(items),
        _ => None,
    }
}

/// The first notation anywhere in fields.
pub open spec fn notation_in_fields(fields: Seq<(Seq<char>, JsonView)>) -> Option<Seq<char>>
    decreases fields, 0nat,
{
    if fields.len() == 0 {
        None
    } else {
        let direct = if notation_key(fields[0].0) {
            text_within(fields[0].1)
        } else {
            None
        };
        if direct is Some {
            direct
        } else {
            match first_notation(fields[0].1) {
                Some(t) => Some(t),
                None => notation_in_fields(fields.drop_first()),
            }
        }
    }
}

/// The first notation anywhere in a list.
pub open spec fn notation_in_items(items: Seq<JsonView>) -> Option<Seq<char>>
    decreases items, 0nat,
{
    if items.len() == 0 {
        None
    } else {
        match first_notation(items[0]) {
            Some(t) => Some(t),
            None => notation_in_items(items.drop_first()),
        }
    }
}

proof fn lemma_text_under(fields: Seq<(Seq<char>, JsonView)>, key: Seq<char>)
    ensures
        text_under(fields, key) == match json::first_field(fields, key) {
            Some(value) => text_within(value),
            None => None,
        },
    decreases fields.len(),
{
    if fields.len() > 0 && fields[0].0 != key {
        lemma_text_under(fields.drop_first(), key);
    }
}

/// The first text that is not blank in the first field under a key.
fn find_text_under(value: &Json, key: &str) -> (r: Option<String>)
    requires
        value.deep_view() is Object,
    ensures
        r.deep_view() == text_under(value.deep_view()->Object_0, key@),
    decreases value, 0nat,
{
    proof {
        lemma_text_under(value.deep_view()->Object_0, key@);
    }
    match value.get(key) {
        Some(entry) => extract_non_empty_text(entry),
        None => None,
    }
}

/// The first text that is not blank in a value.
pub fn extract_non_empty_text(value: &Json) -> (r: Option<String>)
    ensures
        r.deep_view() == text_within(value.deep_view()),
    decreases value, 1nat,
{
    match value {
        Json::Text(t) => {
            let trimmed = text::trim(t.as_str());
            if trimmed.as_str().is_empty() {
                None
            } else {
                Some(trimmed)
            }
        },
        Json::Object(_) => {
            let a = find_text_under(value, "text");
            if a.is_some() {
                return a;
            }
            let b = find_text_under(value, "value");
            if b.is_some() {
                return b;
            }
            let c = find_text_under(value, "de");
            if c.is_some() {
                return c;
            }
            let d = find_text_under(value, "fr");
            if d.is_some() {
                return d;
            }
            let e = find_text_under(value, "it");
            if e.is_some() {
                return e;
            }
            find_text_under(value, "en")
        },
        Json::Array(_) => {
            let items = match value.as_array() {
                Some(items) => items,
                None => return None,
            };
            let ghost all = json::views(items@);
            let mut i: usize = 0;
            assert(all.skip(0) =~= all);
            while i < items.len()
                invariant
                    i <= items@.len(),
                    all == json::views(items@),
                    *value == Json::Array(*items),
                    value.deep_view() == JsonView::Array(all),
                    text_among(all) == text_among(all.skip(i as int)),
                decreases items@.len() - i,
            {
                assert(all.skip(i as int)[0] == items@[i as int].deep_view());
                assert(all.skip(i as int).drop_first() =~= all.skip(i + 1));
                assert(decreases_to!(*value => value->Array_0));
                let found = extract_non_empty_text(&items[i]);
                if found.is_some() {
                    return found;
                }
                i += 1;
            }
            None
        },
        _ => None,
    }
}

/// The first notation anywhere in a value.
pub fn find_first_formation_short_string(value: &Json) -> (r: Option<String>)
    ensures
        r.deep_view() == first_notation(value.deep_view()),
    decreases value,
{
    match value {
        Json::Object(_) => {
            let fields = match value.as_object() {
                Some(fields) => fields,
                None => return None,
            };
            let ghost all = json::field_views(fields@);
            let mut i: usize = 0;
            assert(all.skip(0) =~= all);
            while i < fields.len()
                invariant
                    i <= fields@.len(),
                    all == json::field_views(fields@),
                    *value == Json::Object(*fields),
                    value.deep_view() == JsonView::Object(all),
                    notation_in_fields(all) == notation_in_fields(all.skip(i as int)),
                decreases fields@.len() - i,
            {
                assert(all.skip(i as int)[0] == all[i as int]);
                assert(all.skip(i as int).drop_first() =~= all.skip(i + 1));
                assert(decreases_to!(*value => value->Object_0));
                let key = text::to_lower(fields[i].0.as_str());
                if text::has(key.as_str(), "formationshortstring") || text::has(
                    key.as_str(),
                    "formation_short_string",
                ) {
                    let direct = extract_non_empty_text(&fields[i].1);
                    if direct.is_some() {
                        return direct;
                    }
                }
                let found = find_first_formation_short_string(&fields[i].1);
                if found.is_some() {
                    return found;
                }
                i += 1;
            }
            None
        },
        Json::Array(_) => {
            let items = match value.as_array() {
                Some(items) => items,
                None => return None,
            };
            let ghost all = json::views(items@);
            let mut i: usize = 0;
            assert(all.skip(0) =~= all);
            while i < items.len()
                invariant
                    i <= items@.len(),
                    all == json::views(items@),
                    *value == Json::Array(*items),
                    value.deep_view() == JsonView::Array(all),
                    notation_in_items(all) == notation_in_items(all.skip(i as int)),
                decreases items@.len() - i,
            {
                assert(all.skip(i as int)[0] == items@[i as int].deep_view());
                assert(all.skip(i as int).drop_first() =~= all.skip(i + 1));
                assert(decreases_to!(*value => value->Array_0));
                let found = find_first_formation_short_string(&items[i]);
                if found.is_some() {
                    return found;
                }
                i += 1;
            }
            None
        },
        _ => None,
    }
}

/// The notation of a train in an answer: the best one at its stops, or else the first one
/// anywhere.
pub open spec fn notation_for(payload: JsonView, station: Seq<char>, departure: FixedDateTime) -> Option<
    Seq<char>,
> {
    match best_notation(payload, station, departure) {
        Some(notation) => Some(notation),
        None => first_notation(payload),
    }
}

/// The notation of the train that was asked for in an answer.
pub fn read_formation(query: &FormationQuery, payload: &Json) -> (r: Option<String>)
    ensures
        r.deep_view() == notation_for(payload.deep_view(), query.station@, query.departure),
{
    let best = find_best_stop_formation_short_string(
        payload,
        query.station.as_str(),
        query.departure,
    );
    if best.is_some() {
        best
    } else {
        find_first_formation_short_string(payload)
    }
}

// ---------------------------------------------------------------------------
// Question by question
// ---------------------------------------------------------------------------

/// The number of questions of a search.
pub open spec fn request_count(query: FormationQueryView) -> nat {
    query.endpoints.len() * query.train_numbers.len()
}

/// The question of a search with a number, as the place and the train number: at each
/// place all train numbers are tried, in order, before the next place.
pub open spec fn request_at(query: FormationQueryView, n: int) -> (Seq<char>, Seq<char>) {
    (
        query.endpoints[n / query.train_numbers.len() as int],
        query.train_numbers[n % query.train_numbers.len() as int],
    )
}

/// What became of a question.
#[derive(Debug)]
pub enum FormationEvent {
    /// An answer came.
    Status {
        /// The status code.
        code: u16,
        /// The status, in words.
        words: String,
    },
    /// The body of the answer was read.
    Body(String),
    /// No answer came, or its body could not be read; the message of the failure.
    Lost(String),
}

/// The view of a [`FormationEvent`].
#[verifier::ext_equal]
pub enum FormationEventView {
    Status { code: u16, words: Seq<char> },
    Body(Seq<char>),
    Lost(Seq<char>),
}

impl DeepView for FormationEvent {
    type V = FormationEventView;

    open spec fn deep_view(&self) -> FormationEventView {
        match self {
            FormationEvent::Status { code, words } => FormationEventView::Status {
                code: *code,
                words: words@,
            },
            FormationEvent::Body(t) => FormationEventView::Body(t@),
            FormationEvent::Lost(message) => FormationEventView::Lost(message@),
        }
    }
}

/// What a search does next.
#[derive(Debug)]
pub enum FormationAction {
    /// Ask.
    Ask {
        /// Where.
        endpoint: String,
        /// For which railway undertaking.
        evu: String,
        /// For which day.
        operation_date: String,
        /// For which train number.
        train_number: String,
    },
    /// Read the body of the answer.
    ReadBody,
    /// Nothing: this is the outcome.
    Finish(Result<Option<String>, Error>),
}

/// The view of a [`FormationAction`].
#[verifier::ext_equal]
pub enum FormationActionView {
    Ask {
        endpoint: Seq<char>,
        evu: Seq<char>,
        operation_date: Seq<char>,
        train_number: Seq<char>,
    },
    ReadBody,
    Finish(Result<Option<Seq<char>>, Seq<char>>),
}

impl DeepView for FormationAction {
    type V = FormationActionView;

    open spec fn deep_view(&self) -> FormationActionView {
        match self {
            FormationAction::Ask { endpoint, evu, operation_date, train_number } => {
                FormationActionView::Ask {
                    endpoint: endpoint@,
                    evu: evu@,
                    operation_date: operation_date@,
                    train_number: train_number@,
                }
            },
            FormationAction::ReadBody => FormationActionView::ReadBody,
            FormationAction::Finish(outcome) => FormationActionView::Finish(
                error::outcome(*outcome),
            ),
        }
    }
}

/// What a search does at a question: it asks as long as there are questions.
pub open spec fn action_at(query: FormationQueryView, n: int) -> FormationActionView {
    if n < request_count(query) {
        let (endpoint, train_number) = request_at(query, n);
        FormationActionView::Ask {
            endpoint,
            evu: query.evu,
            operation_date: query.operation_date,
            train_number,
        }
    } else {
        FormationActionView::Finish(Ok(None))
    }
}

/// Where a search stands after an event, and what it does next. A train that is not known
/// and an answer without a notation lead to the next question; any other refusal, a body
/// that is no JSON, and a failure to reach the service end the search.
pub open spec fn after_event(query: FormationQueryView, n: int, event: FormationEventView) -> (
    int,
    FormationActionView,
) {
    match event {
        FormationEventView::Status { code, words } => match status_verdict(code) {
            StatusVerdict::Skip => (n + 1, action_at(query, n + 1)),
            StatusVerdict::Read => (n, FormationActionView::ReadBody),
            StatusVerdict::Fail => (n, FormationActionView::Finish(Err(refusal_text(words)))),
        },
        FormationEventView::Body(body) => match json::text_meaning(body) {
            Ok(payload) => after_payload(query, n, payload),
            Err(message) => (n, FormationActionView::Finish(Err(message))),
        },
        FormationEventView::Lost(message) => (n, FormationActionView::Finish(Err(message))),
    }
}

/// Where a search stands after an answer, and what it does next.
pub open spec fn after_payload(query: FormationQueryView, n: int, payload: JsonView) -> (
    int,
    FormationActionView,
) {
    match notation_for(payload, query.station, query.departure) {
        Some(notation) => (n, FormationActionView::Finish(Ok(Some(notation)))),
        None => (n + 1, action_at(query, n + 1)),
    }
}

/// A search for the formation of a train, which asks question by question.
#[derive(Debug)]
pub struct FormationSearch {
    query: FormationQuery,
    place: usize,
    number: usize,
}

impl FormationSearch {
    /// What is asked for.
    pub closed spec fn query(self) -> FormationQueryView {
        self.query.deep_view()
    }

    /// The number of the question at which the search stands.
    pub closed spec fn position(self) -> int {
        self.place * self.query.train_numbers@.len() + self.number
    }

    #[verifier::type_invariant]
    spec fn well_formed(self) -> bool {
        &&& self.place <= self.query.endpoints@.len()
        &&& self.number < self.query.train_numbers@.len()
    }

    /// A search that stands at its first question.
    pub fn new(query: FormationQuery) -> (r: FormationSearch)
        requires
            query.train_numbers@.len() > 0,
        ensures
            r.query() == query.deep_view(),
            r.position() == 0,
    {
        FormationSearch { query, place: 0, number: 0 }
    }

    proof fn lemma_position(&self)
        requires
            self.well_formed(),
        ensures
            self.position() / self.query.train_numbers@.len() as int == self.place,
            self.position() % self.query.train_numbers@.len() as int == self.number,
            self.position() < request_count(self.query()) <==> self.place
                < self.query.endpoints@.len(),
    {
        let k = self.query.train_numbers@.len() as int;
        let m = self.query.endpoints@.len() as int;
        let e = self.place as int;
        let t = self.number as int;
        vstd::arithmetic::div_mod::lemma_fundamental_div_mod_converse(self.position(), k, e, t);
        if e < m {
            assert(e * k + t < m * k) by (nonlinear_arith)
                requires
                    0 <= e < m,
                    0 <= t < k,
            ;
        } else {
            assert(e * k + t >= m * k) by (nonlinear_arith)
                requires
                    e >= m,
                    0 <= t < k,
            ;
        }
    }

    /// What the search does where it stands.
    pub fn action(&self) -> (r: FormationAction)
        ensures
            r.deep_view() == action_at(self.query(), self.position()),
    {
        proof {
            use_type_invariant(self);
            self.lemma_position();
        }
        if self.place < self.query.endpoints.len() {
            FormationAction::Ask {
                endpoint: self.query.endpoints[self.place].clone(),
                evu: self.query.evu.clone(),
                operation_date: self.query.operation_date.clone(),
                train_number: self.query.train_numbers[self.number].clone(),
            }
        } else {
            FormationAction::Finish(Ok(None))
        }
    }

    /// Goes to the next question.
    fn advance(self) -> (r: FormationSearch)
        requires
            self.position() < request_count(self.query()),
        ensures
            r.query() == self.query(),
            r.position() == self.position() + 1,
    {
        proof {
            use_type_invariant(&self);
            self.lemma_position();
        }
        let ghost k = self.query.train_numbers@.len() as int;
        let ghost e = self.place as int;
        let numbers: usize = self.query.train_numbers.len();
        let places: usize = self.query.endpoints.len();
        assert(self.place < places && self.number < numbers);
        if self.number + 1 < numbers {
            FormationSearch { query: self.query, place: self.place, number: self.number + 1 }
        } else {
            proof {
                assert((e + 1) * k == e * k + k) by (nonlinear_arith);
            }
            FormationSearch { query: self.query, place: self.place + 1, number: 0 }
        }
    }

    /// Goes on after the answer to the question at which the search stands.
    pub fn take_payload(self, payload: &Json) -> (r: (FormationSearch, FormationAction))
        requires
            self.position() < request_count(self.query()),
        ensures
            r.0.query() == self.query(),
            (r.0.position(), r.1.deep_view()) == after_payload(
                self.query(),
                self.position(),
                payload.deep_view(),
            ),
    {
        match read_formation(&self.query, payload) {
            Some(notation) => (self, FormationAction::Finish(Ok(Some(notation)))),
            None => {
                let next = self.advance();
                let action = next.action();
                (next, action)
            },
        }
    }

    /// Goes on after what became of the question at which the search stands.
    pub fn take_event(self, event: FormationEvent) -> (r: (FormationSearch, FormationAction))
        requires
            self.position() < request_count(self.query()),
        ensures
            r.0.query() == self.query(),
            (r.0.position(), r.1.deep_view()) == after_event(
                self.query(),
                self.position(),
                event.deep_view(),
            ),
    {
        match event {
            FormationEvent::Status { code, words } => match judge_status(code) {
                StatusVerdict::Skip => {
                    let next = self.advance();
                    let action = next.action();
                    (next, action)
                },
                StatusVerdict::Read => (self, FormationAction::ReadBody),
                StatusVerdict::Fail => (
                    self,
                    FormationAction::Finish(Err(refusal(words.as_str()))),
                ),
            },
            FormationEvent::Body(body) => match Json::parse(body.as_str()) {
                Ok(payload) => self.take_payload(&payload),
                Err(e) => (self, FormationAction::Finish(Err(e))),
            },
            FormationEvent::Lost(message) => (
                self,
                FormationAction::Finish(Err(error::failure(message))),
            ),
        }
    }
}

// ---------------------------------------------------------------------------
// No question twice
// ---------------------------------------------------------------------------

/// No text stands twice in a list.
pub open spec fn distinct(list: Seq<Seq<char>>) -> bool {
    forall|i: int, j: int| 0 <= i < j < list.len() ==> #[trigger] list[i] != #[trigger] list[j]
}

proof fn lemma_with_numbers_is_distinct(list: Seq<Seq<char>>, numbers: Seq<Seq<char>>)
    requires
        distinct(list),
    ensures
        distinct(with_numbers(list, numbers)),
    decreases numbers.len(),
{
    if numbers.len() > 0 {
        lemma_with_numbers_is_distinct(list, numbers.drop_last());
        let before = with_numbers(list, numbers.drop_last());
        let after = with_numbers(list, numbers);
        assert forall|i: int, j: int| 0 <= i < j < after.len() implies #[trigger] after[i]
            != #[trigger] after[j] by {
            if j == before.len() {
                assert(before[i] == after[i]);
                assert(before.contains(before[i]));
            }
        }
    }
}

proof fn lemma_leg_numbers_are_distinct(legs: Seq<TripLegView>)
    ensures
        distinct(leg_numbers(legs)),
    decreases legs.len(),
{
    if legs.len() > 0 {
        let list = leg_numbers(legs.drop_last());
        lemma_leg_numbers_are_distinct(legs.drop_last());
        match legs.last().line {
            Some(line) => {
                lemma_with_numbers_is_distinct(list, numbers_in(line));
                lemma_with_numbers_is_distinct(
                    with_numbers(list, numbers_in(line)),
                    numbers_in(legs.last().service),
                );
            },
            None => {
                lemma_with_numbers_is_distinct(list, numbers_in(legs.last().service));
            },
        }
    }
}

/// A train number stands once among those that a trip may go by.
pub proof fn law_train_numbers_are_distinct(trip: TripView)
    ensures
        distinct(train_numbers(trip)),
{
    lemma_leg_numbers_are_distinct(trip.legs);
    lemma_with_numbers_is_distinct(
        leg_numbers(trip.legs),
        number_segments(text::pieces(trip.id, CharSet::NotAlnum)),
    );
}

/// A search goes on to the next question, reads the answer to the present one, or ends: it
/// asks each of its questions at most once, and never goes back.
pub proof fn law_search_goes_forward(query: FormationQueryView, n: int, event: FormationEventView)
    ensures
        match after_event(query, n, event) {
            (m, FormationActionView::Ask { endpoint, train_number, .. }) => {
                &&& m == n + 1
                &&& m < request_count(query)
                &&& (endpoint, train_number) == request_at(query, m)
            },
            (m, FormationActionView::ReadBody) => m == n && event is Status,
            (m, FormationActionView::Finish(_)) => n <= m <= n + 1,
        },
{
}

/// A search for the formation of a trip asks no question twice.
pub proof fn law_questions_differ(
    trip: TripView,
    endpoint: Seq<char>,
    today: int,
    m: int,
    n: int,
)
    requires
        query_for(trip, endpoint, today) is Some,
        0 <= m < n < request_count(query_for(trip, endpoint, today)->0),
    ensures
        request_at(query_for(trip, endpoint, today)->0, m) != request_at(
            query_for(trip, endpoint, today)->0,
            n,
        ),
{
    let q = query_for(trip, endpoint, today)->0;
    let k = q.train_numbers.len() as int;
    law_train_numbers_are_distinct(trip);
    text::law_uniques_are_distinct(
        seq![
            text::replaced(endpoint, "formations_stop_based"@, "formations_vehicle_based"@),
            text::replaced(endpoint, "formations_stop_based"@, "formations_full"@),
            endpoint,
        ],
    );
    assert(distinct(q.endpoints));
    vstd::arithmetic::div_mod::lemma_fundamental_div_mod(m, k);
    vstd::arithmetic::div_mod::lemma_fundamental_div_mod(n, k);
    vstd::arithmetic::div_mod::lemma_div_pos_is_pos(m, k);
    vstd::arithmetic::div_mod::lemma_div_is_ordered(m, n, k);
    vstd::arithmetic::div_mod::lemma_div_by_multiple_is_strongly_ordered(
        n,
        q.endpoints.len() * k,
        q.endpoints.len() as int,
        k,
    );
    vstd::arithmetic::div_mod::lemma_div_by_multiple(q.endpoints.len() as int, k);
    let (em, en) = (m / k, n / k);
    if em == en {
        assert(k * em == k * en);
        let (tm, tn) = (m % k, n % k);
        assert(tm < tn);
        assert(q.train_numbers[tm] != q.train_numbers[tn]);
    } else {
        assert(q.endpoints[em] != q.endpoints[en]);
    }
}

// ---------------------------------------------------------------------------
// What a search asks for
// ---------------------------------------------------------------------------

/// A leg by rail, by the name of its mode.
pub open spec fn named_rail(leg: TripLegView) -> bool {
    text::lowered(leg.mode) == seq!['r', 'a', 'i', 'l'] || text::lowered(leg.mode) == seq![
        't',
        'r',
        'a',
        'i',
        'n',
    ]
}

proof fn lemma_named_rail(leg: TripLegView)
    ensures
        named_rail(leg) == by_rail(leg),
{
    reveal_strlit("rail");
    reveal_strlit("train");
    assert("rail"@ =~= seq!['r', 'a', 'i', 'l']);
    assert("train"@ =~= seq!['t', 'r', 'a', 'i', 'n']);
}

/// A search for a formation is about the first leg by rail: it asks for the train that
/// leaves its station at its planned time, on the local day on which that is expected.
/// Without a leg by rail, or without a train number, there is nothing to ask.
pub proof fn law_search_is_about_the_first_train(
    trip: TripView,
    endpoint: Seq<char>,
    today: int,
    k: int,
)
    requires
        0 <= k <= trip.legs.len(),
        forall|j: int| 0 <= j < k ==> !named_rail(#[trigger] trip.legs[j]),
        k < trip.legs.len() ==> named_rail(trip.legs[k]),
    ensures
        k == trip.legs.len() ==> query_for(trip, endpoint, today) is None,
        k < trip.legs.len() ==> (query_for(trip, endpoint, today) is Some <==> train_numbers(
            trip,
        ).len() > 0),
        k < trip.legs.len() && train_numbers(trip).len() > 0 ==> {
            let q = query_for(trip, endpoint, today)->0;
            let leg = trip.legs[k];
            let day = (leg.departure.expected.unix() + leg.departure.expected.east()) / 86400;
            &&& q.station == leg.from.station
            &&& q.departure == leg.departure.scheduled
            &&& q.operation_date == time::date_text(day)
            &&& q.train_numbers == train_numbers(trip)
            &&& q.endpoints == endpoints_for(endpoint, day, today)
            &&& undertaking(trip.legs) is Some ==> q.evu == undertaking(trip.legs)->0
            &&& undertaking(trip.legs) is None ==> q.evu == "SBBP"@
        },
{
    lemma_first_rail_leg(trip.legs, k);
}

proof fn lemma_first_rail_leg(legs: Seq<TripLegView>, k: int)
    requires
        0 <= k <= legs.len(),
        forall|j: int| 0 <= j < k ==> !named_rail(#[trigger] legs[j]),
        k < legs.len() ==> named_rail(legs[k]),
    ensures
        first_rail_leg(legs) == if k < legs.len() {
            Some(legs[k])
        } else {
            None
        },
    decreases legs.len(),
{
    if legs.len() > 0 {
        lemma_named_rail(legs[0]);
        if k > 0 {
            let rest = legs.drop_first();
            assert forall|j: int| 0 <= j < k - 1 implies !named_rail(#[trigger] rest[j]) by {
                assert(rest[j] == legs[j + 1]);
            }
            assert(!named_rail(legs[0]));
            lemma_first_rail_leg(rest, k - 1);
        }
    }
}

/// A number counts without its leading zeros; nothing but zeros is zero.
pub proof fn law_leading_zeros_do_not_count(digits: Seq<char>)
    ensures
        bare_number(seq!['0'] + digits) == bare_number(digits),
        digits.len() > 0 && digits[0] != '0' ==> bare_number(digits) == digits,
        bare_number(Seq::empty()) == seq!['0'],
{
    assert((seq!['0'] + digits).drop_first() =~= digits);
    reveal_strlit("0");
    assert("0"@ =~= seq!['0']);
}

proof fn lemma_with_numbers(list: Seq<Seq<char>>, numbers: Seq<Seq<char>>, x: Seq<char>)
    ensures
        with_numbers(list, numbers).contains(x) <==> list.contains(x) || exists|i: int|
            #![trigger numbers[i]]
            0 <= i < numbers.len() && bare_number(numbers[i]) == x,
    decreases numbers.len(),
{
    if numbers.len() > 0 {
        let some = numbers.drop_last();
        let n = numbers.len() - 1;
        lemma_with_numbers(list, some, x);
        let (a, b) = (with_numbers(list, some), with_numbers(list, numbers));
        if exists|i: int|
            #![trigger numbers[i]]
            0 <= i < numbers.len() && bare_number(numbers[i]) == x {
            let i = choose|i: int|
                #![trigger numbers[i]]
                0 <= i < numbers.len() && bare_number(numbers[i]) == x;
            if i < n {
                assert(some[i] == numbers[i]);
            } else if !a.contains(bare_number(numbers.last())) {
                assert(b[b.len() - 1] == x);
            }
        }
        if a.contains(x) {
            let m = choose|m: int| 0 <= m < a.len() && a[m] == x;
            assert(b[m] == x);
        }
        if b.contains(x) && !a.contains(x) {
            let m = choose|m: int| 0 <= m < b.len() && b[m] == x;
            if m < a.len() {
                assert(a[m] == x);
            }
            assert(numbers[n] == numbers.last());
        }
        if exists|i: int| #![trigger some[i]] 0 <= i < some.len() && bare_number(some[i]) == x {
            let i = choose|i: int| #![trigger some[i]] 0 <= i < some.len() && bare_number(some[i]) == x;
            assert(numbers[i] == some[i]);
        }
    }
}

/// A number is among those of a leg's train exactly if it stands in its line or its label,
/// or is among those of the legs before it.
pub proof fn law_numbers_of_a_leg(legs: Seq<TripLegView>, more: TripLegView, x: Seq<char>)
    ensures
        leg_numbers(Seq::empty()).len() == 0,
        leg_numbers(legs.push(more)).contains(x) <==> leg_numbers(legs).contains(x) || (
        more.line is Some && exists|i: int|
            #![trigger numbers_in(more.line->0)[i]]
            0 <= i < numbers_in(more.line->0).len() && bare_number(numbers_in(more.line->0)[i]) == x)
            || exists|i: int|
            #![trigger numbers_in(more.service)[i]]
            0 <= i < numbers_in(more.service).len() && bare_number(numbers_in(more.service)[i])
                == x,
{
    assert(legs.push(more).drop_last() =~= legs);
    let list = leg_numbers(legs);
    let first = match more.line {
        Some(line) => with_numbers(list, numbers_in(line)),
        None => list,
    };
    if more.line is Some {
        lemma_with_numbers(list, numbers_in(more.line->0), x);
    }
    lemma_with_numbers(first, numbers_in(more.service), x);
}

/// The train numbers of a trip are those of its legs and those in its reference: its parts
/// of one to six digits.
pub proof fn law_numbers_of_a_trip(trip: TripView, x: Seq<char>)
    ensures
        train_numbers(trip).contains(x) <==> leg_numbers(trip.legs).contains(x) || exists|i: int|
            #![trigger text::pieces(trip.id, CharSet::NotAlnum)[i]]
            {
                let part = text::pieces(trip.id, CharSet::NotAlnum)[i];
                &&& 0 <= i < text::pieces(trip.id, CharSet::NotAlnum).len()
                &&& 1 <= part.len() <= 6
                &&& forall|j: int| 0 <= j < part.len() ==> '0' <= #[trigger] part[j] <= '9'
                &&& bare_number(part) == x
            },
{
    let parts = text::pieces(trip.id, CharSet::NotAlnum);
    let segments = number_segments(parts);
    lemma_with_numbers(leg_numbers(trip.legs), segments, x);
    lemma_number_segments(parts);
    if exists|i: int| #![trigger segments[i]] 0 <= i < segments.len() && bare_number(segments[i]) == x {
        let i = choose|i: int|
            #![trigger segments[i]]
            0 <= i < segments.len() && bare_number(segments[i]) == x;
        let k = choose|k: int| 0 <= k < parts.len() && #[trigger] parts[k] == segments[i];
        let part = parts[k];
        assert forall|j: int| 0 <= j < part.len() implies '0' <= #[trigger] part[j] <= '9' by {
            assert(text::is_digit(part[j]));
        }
    }
    if exists|i: int|
        #![trigger parts[i]]
        {
            let part = parts[i];
            &&& 0 <= i < parts.len()
            &&& 1 <= part.len() <= 6
            &&& forall|j: int| 0 <= j < part.len() ==> '0' <= #[trigger] part[j] <= '9'
            &&& bare_number(part) == x
        } {
        let i = choose|i: int|
            #![trigger parts[i]]
            {
                let part = parts[i];
                &&& 0 <= i < parts.len()
                &&& 1 <= part.len() <= 6
                &&& forall|j: int| 0 <= j < part.len() ==> '0' <= #[trigger] part[j] <= '9'
                &&& bare_number(part) == x
            };
        let part = parts[i];
        assert(text::all_digits(part)) by {
            assert forall|j: int| 0 <= j < part.len() implies text::is_digit(#[trigger] part[j]) by {}
        }
        assert(number_segment(part));
        let m = choose|m: int| 0 <= m < segments.len() && segments[m] == part;
        assert(bare_number(segments[m]) == x);
    }
}

proof fn lemma_number_segments(parts: Seq<Seq<char>>)
    ensures
        forall|i: int|
            0 <= i < number_segments(parts).len() ==> number_segment(
                #[trigger] number_segments(parts)[i],
            ) && parts.contains(number_segments(parts)[i]),
        forall|k: int|
            0 <= k < parts.len() && number_segment(#[trigger] parts[k]) ==> number_segments(
                parts,
            ).contains(parts[k]),
    decreases parts.len(),
{
    if parts.len() > 0 {
        let some = parts.drop_last();
        lemma_number_segments(some);
        let (a, b) = (number_segments(some), number_segments(parts));
        assert forall|i: int| 0 <= i < b.len() implies number_segment(#[trigger] b[i])
            && parts.contains(b[i]) by {
            if i < a.len() {
                assert(b[i] == a[i]);
                let k = choose|k: int| 0 <= k < some.len() && some[k] == a[i];
                assert(parts[k] == b[i]);
            } else {
                assert(parts[parts.len() - 1] == b[i]);
            }
        }
        assert forall|k: int| 0 <= k < parts.len() && number_segment(#[trigger] parts[k]) implies
            b.contains(parts[k]) by {
            if k < some.len() {
                assert(some[k] == parts[k]);
                let m = choose|m: int| 0 <= m < a.len() && a[m] == some[k];
                assert(b[m] == parts[k]);
            } else {
                assert(b[b.len() - 1] == parts[k]);
            }
        }
    }
}

/// The railway undertaking of a trip, by what its operators are called.
pub proof fn law_undertakings(legs: Seq<TripLegView>)
    ensures
        ({
            let names = text::lowered(text::joined(operators_of(legs), " "@));
            let code = undertaking(legs);
            let bls = text::contains(names, "bls"@);
            let sob = text::contains(names, "sob"@);
            let thurbo = text::contains(names, "thurbo"@);
            let rhb = text::contains(names, "rhb"@);
            let zb = text::contains(names, "zb"@);
            let others = text::contains(names, "tpf"@) || text::contains(names, "trn"@)
                || text::contains(names, "mbc"@) || text::contains(names, "oebb"@)
                || text::contains(names, "öbb"@) || text::contains(names, "vdbb"@);
            let sbb = text::contains(names, "sbb"@) || text::contains(names, "cff"@)
                || text::contains(names, "ffs"@);
            &&& bls ==> code == Some("BLSP"@)
            &&& !bls && sob ==> code == Some("SOB"@)
            &&& !bls && !sob && thurbo ==> code == Some("THURBO"@)
            &&& !bls && !sob && !thurbo && rhb ==> code == Some("RhB"@)
            &&& !bls && !sob && !thurbo && !rhb && zb ==> code == Some("ZB"@)
            &&& !bls && !sob && !thurbo && !rhb && !zb && !others && sbb ==> code == Some("SBBP"@)
            &&& !bls && !sob && !thurbo && !rhb && !zb && !others && !sbb ==> code is None
            &&& code == Some("TPF"@) && !bls && !sob && !thurbo && !rhb && !zb ==> others
            &&& !bls && !sob && !thurbo && !rhb && !zb && text::contains(names, "tpf"@) ==> code
                == Some("TPF"@)
            &&& !bls && !sob && !thurbo && !rhb && !zb && !text::contains(names, "tpf"@)
                && text::contains(names, "trn"@) ==> code == Some("TRN"@)
            &&& !bls && !sob && !thurbo && !rhb && !zb && !text::contains(names, "tpf"@)
                && !text::contains(names, "trn"@) && text::contains(names, "mbc"@) ==> code
                == Some("MBC"@)
            &&& !bls && !sob && !thurbo && !rhb && !zb && !text::contains(names, "tpf"@)
                && !text::contains(names, "trn"@) && !text::contains(names, "mbc"@) && (
            text::contains(names, "oebb"@) || text::contains(names, "öbb"@)) ==> code == Some(
                "OeBB"@,
            )
        }),
{
    reveal_strlit("TPF");
    reveal_strlit("SBBP");
    assert("TPF"@.len() == 3);
    assert("SBBP"@.len() == 4);
}

/// The operators of a trip are those of its legs, in order.
pub proof fn law_operators_are_those_of_the_legs(legs: Seq<TripLegView>, more: TripLegView)
    ensures
        operators_of(Seq::empty()).len() == 0,
        more.operator is None ==> operators_of(legs.push(more)) == operators_of(legs),
        more.operator is Some ==> operators_of(legs.push(more)) == operators_of(legs).push(
            more.operator->0,
        ),
{
    assert(legs.push(more).drop_last() =~= legs);
}

/// For today, and at a place that is not for stops, only the given place is asked. For a
/// later day the place for vehicles is asked first and the given one last.
pub proof fn law_later_days_are_asked_elsewhere(base: Seq<char>, day: int, today: int)
    ensures
        day <= today ==> endpoints_for(base, day, today) == seq![base],
        !text::contains(base, "formations_stop_based"@) ==> endpoints_for(base, day, today)
            == seq![base],
        day > today && text::contains(base, "formations_stop_based"@) ==> {
            let places = endpoints_for(base, day, today);
            &&& places.contains(base)
            &&& places.contains(
                text::replaced(base, "formations_stop_based"@, "formations_vehicle_based"@),
            )
            &&& places.contains(
                text::replaced(base, "formations_stop_based"@, "formations_full"@),
            )
            &&& places[0] == text::replaced(
                base,
                "formations_stop_based"@,
                "formations_vehicle_based"@,
            )
        },
{
    let kind = "formations_stop_based"@;
    let a = text::replaced(base, kind, "formations_vehicle_based"@);
    let b = text::replaced(base, kind, "formations_full"@);
    let all = seq![a, b, base];
    assert(all[0] == a && all[1] == b && all[2] == base);
    text::law_uniques_are_all(all, a);
    text::law_uniques_are_all(all, b);
    text::law_uniques_are_all(all, base);
    let two = all.drop_last();
    let one = two.drop_last();
    let none = one.drop_last();
    assert(two =~= seq![a, b]);
    assert(one =~= seq![a]);
    assert(none =~= Seq::empty());
    assert(text::uniques(none) =~= Seq::empty());
    assert(text::uniques(one) =~= seq![a]);
    assert(text::uniques(two)[0] == a);
    assert(text::uniques(all)[0] == a);
}

/// What a status means: 400 and 404 lead to the next question, success is read, and
/// anything else is a failure.
pub proof fn law_statuses(status: u16)
    ensures
        status_verdict(status) == StatusVerdict::Skip <==> status == 400 || status == 404,
        status_verdict(status) == StatusVerdict::Read <==> 200 <= status <= 299,
        status_verdict(status) == StatusVerdict::Fail <==> status != 400 && status != 404 && !(200
            <= status <= 299),
{
}

/// A search asks at each place for all train numbers, in order, before it goes on to the
/// next place, and ends with nothing where all have been asked.
pub proof fn law_questions_in_order(query: FormationQueryView, place: int, number: int)
    requires
        0 <= place < query.endpoints.len(),
        0 <= number < query.train_numbers.len(),
    ensures
        ({
            let n = place * query.train_numbers.len() + number;
            action_at(query, n) == FormationActionView::Ask {
                endpoint: query.endpoints[place],
                evu: query.evu,
                operation_date: query.operation_date,
                train_number: query.train_numbers[number],
            }
        }),
        forall|n: int|
            n >= query.endpoints.len() * query.train_numbers.len() ==> #[trigger] action_at(
                query,
                n,
            ) == FormationActionView::Finish(Ok(None)),
{
    let k = query.train_numbers.len() as int;
    let n = place * k + number;
    vstd::arithmetic::div_mod::lemma_fundamental_div_mod_converse(n, k, place, number);
    assert(n < query.endpoints.len() * k) by (nonlinear_arith)
        requires
            0 <= place < query.endpoints.len(),
            0 <= number < k,
            n == place * k + number,
    ;
}

/// How a search goes on after an answer: a train that is not known leads to the next
/// question, an answer with a notation ends the search with it, and any failure ends it.
pub proof fn law_search_goes_on(
    query: FormationQueryView,
    n: int,
    code: u16,
    words: Seq<char>,
    payload: JsonView,
    message: Seq<char>,
)
    ensures
        code == 404 || code == 400 ==> after_event(
            query,
            n,
            FormationEventView::Status { code, words },
        ) == (n + 1, action_at(query, n + 1)),
        200 <= code <= 299 ==> after_event(query, n, FormationEventView::Status { code, words }) == (
            n,
            FormationActionView::ReadBody,
        ),
        code == 500 || code == 401 || code == 403 || code == 429 ==> after_event(
            query,
            n,
            FormationEventView::Status { code, words },
        ) == (
            n,
            FormationActionView::Finish(Err("formation API returned status "@ + words)),
        ),
        after_event(query, n, FormationEventView::Lost(message)) == (
            n,
            FormationActionView::Finish(Err(message)),
        ),
        notation_for(payload, query.station, query.departure) matches Some(notation)
            ==> after_payload(query, n, payload) == (
            n,
            FormationActionView::Finish(Ok(Some(notation))),
        ),
        notation_for(payload, query.station, query.departure) is None ==> after_payload(
            query,
            n,
            payload,
        ) == (n + 1, action_at(query, n + 1)),
{
}

// ---------------------------------------------------------------------------
// What is found in an answer
// ---------------------------------------------------------------------------

/// A stop of an answer is a candidate if it has a notation, is at the station and tells when
/// the train leaves; it is as far off as the train's departure there is from the planned
/// one.
pub open spec fn candidate(
    stop: JsonView,
    station: Seq<char>,
    departure: FixedDateTime,
    distance: int,
) -> bool {
    &&& notation_at(stop) is Some
    &&& stops_at(stop, station)
    &&& distance_at(stop, departure) == Some(distance)
}

/// Of the stops of an answer the one at the station whose departure is nearest counts: none
/// at the station is nearer.
pub proof fn law_nearest_departure_counts(
    stops: Seq<JsonView>,
    station: Seq<char>,
    departure: FixedDateTime,
)
    ensures
        ({
            let best = best_among(stops, station, departure).nearest;
            match best {
                Some((distance, notation)) => {
                    &&& exists|i: int|
                        #![trigger stops[i]]
                        0 <= i < stops.len() && candidate(stops[i], station, departure, distance)
                            && notation_at(stops[i]) == Some(notation)
                    &&& forall|i: int, d: int|
                        #![trigger candidate(stops[i], station, departure, d)]
                        0 <= i < stops.len() && candidate(stops[i], station, departure, d)
                            ==> distance <= d
                },
                None => forall|i: int, d: int|
                    #![trigger candidate(stops[i], station, departure, d)]
                    0 <= i < stops.len() ==> !candidate(stops[i], station, departure, d),
            }
        }),
    decreases stops.len(),
{
    if stops.len() > 0 {
        let some = stops.drop_last();
        let last = stops.last();
        let n = stops.len() - 1;
        law_nearest_departure_counts(some, station, departure);
        let before = best_among(some, station, departure).nearest;
        let best = best_among(stops, station, departure).nearest;
        let (distance, _) = best->0;
        assert forall|i: int, d: int|
            #![trigger candidate(stops[i], station, departure, d)]
            0 <= i < n && candidate(stops[i], station, departure, d) implies candidate(
            some[i],
            station,
            departure,
            d,
        ) by {
            assert(some[i] == stops[i]);
        }
        if best is Some {
            if before is Some && best == before {
                let (near, notation) = before->0;
                let i = choose|i: int|
                    #![trigger some[i]]
                    0 <= i < some.len() && candidate(some[i], station, departure, near)
                        && notation_at(some[i]) == Some(notation);
                assert(stops[i] == some[i]);
            } else {
                assert(candidate(stops[n], station, departure, distance));
            }
            assert forall|i: int, d: int|
                #![trigger candidate(stops[i], station, departure, d)]
                0 <= i < stops.len() && candidate(stops[i], station, departure, d) implies distance
                <= d by {
                if i < n {
                    assert(candidate(some[i], station, departure, d));
                }
            }
        } else {
            assert forall|i: int, d: int|
                #![trigger candidate(stops[i], station, departure, d)]
                0 <= i < stops.len() implies !candidate(stops[i], station, departure, d) by {
                if i < n && candidate(stops[i], station, departure, d) {
                    assert(candidate(some[i], station, departure, d));
                }
            }
        }
    }
}

/// Where no stop at the station tells when the train leaves, the first notation at the
/// station counts, and where there is none at the station, the first of all.
pub proof fn law_first_notation_stands_in(
    stops: Seq<JsonView>,
    station: Seq<char>,
    departure: FixedDateTime,
    k: int,
)
    requires
        0 <= k < stops.len(),
        notation_at(stops[k]) is Some,
    ensures
        (forall|j: int| 0 <= j < k ==> notation_at(#[trigger] stops[j]) is None) ==> best_among(
            stops,
            station,
            departure,
        ).any == notation_at(stops[k]),
        stops_at(stops[k], station) && (forall|j: int|
            0 <= j < k ==> notation_at(#[trigger] stops[j]) is None || !stops_at(stops[j], station))
            ==> best_among(stops, station, departure).here == notation_at(stops[k]),
    decreases stops.len(),
{
    let some = stops.drop_last();
    let n = stops.len() - 1;
    if k < n {
        assert(some[k] == stops[k]);
        if forall|j: int| 0 <= j < k ==> notation_at(#[trigger] stops[j]) is None {
            assert forall|j: int| 0 <= j < k implies notation_at(#[trigger] some[j]) is None by {
                assert(some[j] == stops[j]);
            }
        }
        if forall|j: int|
            0 <= j < k ==> notation_at(#[trigger] stops[j]) is None || !stops_at(stops[j], station) {
            assert forall|j: int| 0 <= j < k implies notation_at(#[trigger] some[j]) is None
                || !stops_at(some[j], station) by {
                assert(some[j] == stops[j]);
            }
        }
        law_first_notation_stands_in(some, station, departure, k);
    } else {
        if forall|j: int| 0 <= j < k ==> notation_at(#[trigger] stops[j]) is None {
            assert forall|j: int| 0 <= j < some.len() implies notation_at(#[trigger] some[j]) is None by {
                assert(some[j] == stops[j]);
            }
            lemma_no_notation(some, station, departure);
        }
        if forall|j: int|
            0 <= j < k ==> notation_at(#[trigger] stops[j]) is None || !stops_at(stops[j], station) {
            assert forall|j: int| 0 <= j < some.len() implies notation_at(#[trigger] some[j]) is None
                || !stops_at(some[j], station) by {
                assert(some[j] == stops[j]);
            }
            lemma_no_notation_here(some, station, departure);
        }
    }
}

proof fn lemma_no_notation(stops: Seq<JsonView>, station: Seq<char>, departure: FixedDateTime)
    requires
        forall|j: int| 0 <= j < stops.len() ==> notation_at(#[trigger] stops[j]) is None,
    ensures
        best_among(stops, station, departure).any is None,
    decreases stops.len(),
{
    if stops.len() > 0 {
        let some = stops.drop_last();
        assert forall|j: int| 0 <= j < some.len() implies notation_at(#[trigger] some[j]) is None by {
            assert(some[j] == stops[j]);
        }
        lemma_no_notation(some, station, departure);
        assert(notation_at(stops[stops.len() - 1]) is None);
    }
}

proof fn lemma_no_notation_here(stops: Seq<JsonView>, station: Seq<char>, departure: FixedDateTime)
    requires
        forall|j: int|
            0 <= j < stops.len() ==> notation_at(#[trigger] stops[j]) is None || !stops_at(
                stops[j],
                station,
            ),
    ensures
        best_among(stops, station, departure).here is None,
    decreases stops.len(),
{
    if stops.len() > 0 {
        let some = stops.drop_last();
        assert forall|j: int| 0 <= j < some.len() implies notation_at(#[trigger] some[j]) is None
            || !stops_at(some[j], station) by {
            assert(some[j] == stops[j]);
        }
        lemma_no_notation_here(some, station, departure);
        let last = stops[stops.len() - 1];
        assert(notation_at(last) is None || !stops_at(last, station));
    }
}

/// The notation in an answer: that of the nearest departure at the station, or else the
/// first at the station, or else the first at any stop, or else the first anywhere.
pub proof fn law_notation_in_an_answer(
    payload: JsonView,
    stops: Seq<JsonView>,
    station: Seq<char>,
    departure: FixedDateTime,
)
    requires
        payload.field("formationsAtScheduledStops"@) == Some(JsonView::Array(stops)),
    ensures
        ({
            let best = best_among(stops, station, departure);
            let found = notation_for(payload, station, departure);
            &&& best.nearest matches Some((_, notation)) ==> found == Some(notation)
            &&& best.nearest is None && best.here is Some ==> found == best.here
            &&& best.nearest is None && best.here is None && best.any is Some ==> found == best.any
            &&& best.nearest is None && best.here is None && best.any is None ==> found
                == first_notation(payload)
        }),
{
}

/// The notation, the station and the departure of a stop stand in fields of its fields.
pub proof fn law_fields_of_a_stop(
    notation: Seq<char>,
    name: Seq<char>,
    at: Seq<char>,
    station: Seq<char>,
    departure: FixedDateTime,
)
    requires
        text::trimmed(notation).len() > 0,
    ensures
        ({
            let short = JsonView::Object(
                seq![("formationShortString"@, JsonView::Text(notation))],
            );
            let point = JsonView::Object(seq![("name"@, JsonView::Text(name))]);
            let time_of_stop = JsonView::Object(seq![("departureTime"@, JsonView::Text(at))]);
            let scheduled = JsonView::Object(
                seq![("stopPoint"@, point), ("stopTime"@, time_of_stop)],
            );
            let stop = JsonView::Object(
                seq![("scheduledStop"@, scheduled), ("formationShort"@, short)],
            );
            &&& notation_at(stop) == Some(text::trimmed(notation))
            &&& stops_at(stop, station) <==> plain_name(name) == plain_name(station)
            &&& time::rfc3339_value(at) is None ==> distance_at(stop, departure) is None
            &&& time::rfc3339_value(at) matches Some(t) ==> {
                let seconds = time::seconds_apart(t, departure);
                &&& distance_at(stop, departure) is Some
                &&& distance_at(stop, departure)->0 >= 0
                &&& distance_at(stop, departure)->0 == seconds || distance_at(stop, departure)->0
                    == -seconds
            }
        }),
{
    reveal_strlit("formationShortString");
    reveal_strlit("formationShort");
    reveal_strlit("scheduledStop");
    reveal_strlit("stopPoint");
    reveal_strlit("stopTime");
    assert("formationShort"@.len() == 14);
    assert("scheduledStop"@.len() == 13);
    assert("stopPoint"@.len() == 9);
    assert("stopTime"@.len() == 8);
    let short = JsonView::Object(seq![("formationShortString"@, JsonView::Text(notation))]);
    let point = JsonView::Object(seq![("name"@, JsonView::Text(name))]);
    let time_of_stop = JsonView::Object(seq![("departureTime"@, JsonView::Text(at))]);
    let inner = seq![("stopPoint"@, point), ("stopTime"@, time_of_stop)];
    let scheduled = JsonView::Object(inner);
    let fields = seq![("scheduledStop"@, scheduled), ("formationShort"@, short)];
    let stop = JsonView::Object(fields);
    assert(fields[0].0 == "scheduledStop"@);
    assert(fields.drop_first() =~= seq![("formationShort"@, short)]);
    assert(json::first_field(seq![("formationShort"@, short)], "formationShort"@) == Some(short));
    assert(stop.field("formationShort"@) == Some(short));
    assert(inner.drop_first() =~= seq![("stopTime"@, time_of_stop)]);
    assert(json::first_field(seq![("stopTime"@, time_of_stop)], "stopTime"@) == Some(
        time_of_stop,
    ));
    assert(scheduled.field("stopTime"@) == Some(time_of_stop));
    assert(scheduled.field("stopPoint"@) == Some(point));
    assert(point.field("name"@) == Some(JsonView::Text(name)));
    assert(time_of_stop.field("departureTime"@) == Some(JsonView::Text(at)));
    assert(short.field("formationShortString"@) == Some(JsonView::Text(notation)));
}

/// A text that is not blank counts without the white space around it; of a list the first
/// such text counts.
pub proof fn law_first_text_counts(t: Seq<char>, items: Seq<JsonView>)
    ensures
        text::trimmed(t).len() > 0 ==> text_within(JsonView::Text(t)) == Some(text::trimmed(t)),
        text::trimmed(t).len() == 0 ==> text_within(JsonView::Text(t)) is None,
        text_within(JsonView::Null) is None,
        text_within(JsonView::Array(Seq::empty())) is None,
        items.len() > 0 && text_within(items[0]) is Some ==> text_within(JsonView::Array(items))
            == text_within(items[0]),
        items.len() > 0 && text_within(items[0]) is None ==> text_within(JsonView::Array(items))
            == text_within(JsonView::Array(items.drop_first())),
{
    reveal_with_fuel(text_within, 2);
    reveal_with_fuel(text_among, 2);
}

/// A notation is looked for under keys that speak of a short formation string, whatever
/// their case, field by field and item by item, and within them.
pub proof fn law_first_notation_is_found(
    key: Seq<char>,
    value: JsonView,
    rest: Seq<(Seq<char>, JsonView)>,
    items: Seq<JsonView>,
)
    ensures
        ({
            let fields = seq![(key, value)] + rest;
            let all = JsonView::Object(fields);
            let k = text::lowered(key);
            let named = text::contains(k, "formationshortstring"@) || text::contains(
                k,
                "formation_short_string"@,
            );
            &&& named && text_within(value) is Some ==> first_notation(all) == text_within(value)
            &&& (!named || text_within(value) is None) && first_notation(value) is Some
                ==> first_notation(all) == first_notation(value)
            &&& (!named || text_within(value) is None) && first_notation(value) is None
                ==> first_notation(all) == first_notation(JsonView::Object(rest))
            &&& items.len() > 0 && first_notation(items[0]) is Some ==> first_notation(
                JsonView::Array(items),
            ) == first_notation(items[0])
            &&& items.len() > 0 && first_notation(items[0]) is None ==> first_notation(
                JsonView::Array(items),
            ) == first_notation(JsonView::Array(items.drop_first()))
            &&& first_notation(JsonView::Object(Seq::empty())) is None
        }),
{
    let fields = seq![(key, value)] + rest;
    assert(fields[0] == (key, value));
    assert(fields.drop_first() =~= rest);
    reveal_with_fuel(first_notation, 2);
    reveal_with_fuel(notation_in_fields, 2);
    reveal_with_fuel(notation_in_items, 2);
}

} // verus!
