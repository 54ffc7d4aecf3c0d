//! The departures from a station.

use vstd::prelude::*;

use crate::api::ojp::station;
use crate::api::ojp::tags;
use crate::error;
use crate::error::Error;
use crate::models;
use crate::models::{
    Departure, DepartureView, DeparturesResponse, DeparturesResponseView, Station, ToolWarning,
    ToolWarningView, TransportMode, TripDetails, TripDetailsResponse, TripDetailsResponseView,
};
use crate::order;
use crate::service::station as selection;
use crate::text;

verus! {

// ---------------------------------------------------------------------------
// The station
// ---------------------------------------------------------------------------

/// How many stations to search for when the station of a board is to be found.
pub const BOARD_CANDIDATES: usize = 10;

/// How to find the station.
#[derive(Debug)]
pub enum StationStep {
    /// Its reference is known.
    Known(String),
    /// It has to be searched for.
    Search(String),
    /// It is not given.
    Failed(Error),
}

/// The view of a [`StationStep`].
#[verifier::ext_equal]
pub enum StationStepView {
    Known(Seq<char>),
    Search(Seq<char>),
    Failed(Seq<char>),
}

impl DeepView for StationStep {
    type V = StationStepView;

    open spec fn deep_view(&self) -> StationStepView {
        match self {
            StationStep::Known(id) => StationStepView::Known(id@),
            StationStep::Search(query) => StationStepView::Search(query@),
            StationStep::Failed(e) => StationStepView::Failed(e.deep_view()),
        }
    }
}

/// How to find the station: a reference is enough, a query has to be searched for.
pub open spec fn station_step(id: Option<Seq<char>>, query: Option<Seq<char>>) -> StationStepView {
    match models::filled(id) {
        Some(i) => StationStepView::Known(i),
        None => match models::filled(query) {
            Some(q) => StationStepView::Search(q),
            None => StationStepView::Failed("station_id or station_query is required"@),
        },
    }
}

/// How to find the station.
pub fn begin_station(station_id: Option<&str>, station_query: Option<&str>) -> (r: StationStep)
    ensures
        r.deep_view() == station_step(station_id.deep_view(), station_query.deep_view()),
{
    match models::trim_filled(station_id) {
        Some(id) => StationStep::Known(id),
        None => match models::trim_filled(station_query) {
            Some(query) => StationStep::Search(query),
            None => StationStep::Failed(
                error::failure("station_id or station_query is required".to_owned()),
            ),
        },
    }
}

/// The reference of the first station that was found.
pub fn finish_station(query: &str, stations: &Vec<Station>, suggestions: &Vec<String>) -> (r: Result<
    String,
    Error,
>)
    ensures
        error::outcome(r) == if stations@.len() > 0 {
            Ok(stations.deep_view()[0].id)
        } else {
            Err(
                selection::with_suggestions(
                    "station not found: "@ + query@,
                    suggestions.deep_view(),
                ),
            )
        },
{
    if stations.len() > 0 {
        return Ok(stations[0].id.clone());
    }
    let mut what = "station not found: ".to_owned();
    what.append(query);
    Err(error::failure(selection::add_suggestions(what, suggestions)))
}

/// The minutes to look ahead: 120 by default, and at least one.
pub fn departure_window(given: Option<i64>) -> (r: i64)
    ensures
        r == match given {
            Some(n) => if n < 1 {
                1
            } else {
                n as int
            },
            None => 120,
        },
{
    match given {
        Some(n) => if n < 1 {
            1
        } else {
            n
        },
        None => 120,
    }
}

// ---------------------------------------------------------------------------
// The board
// ---------------------------------------------------------------------------

/// No departure has a delay.
pub open spec fn undelayed(departures: Seq<DepartureView>) -> bool {
    forall|i: int| 0 <= i < departures.len() ==> (#[trigger] departures[i]).delay_minutes == 0
}

/// Whether the live feed should be asked as well: no departure has a delay.
pub fn needs_live_data(departures: &Vec<Departure>) -> (r: bool)
    ensures
        r == undelayed(departures.deep_view()),
{
    let mut i: usize = 0;
    while i < departures.len()
        invariant
            i <= departures@.len(),
            forall|k: int|
                0 <= k < i ==> (#[trigger] departures.deep_view()[k]).delay_minutes == 0,
        decreases departures@.len() - i,
    {
        assert(departures.deep_view()[i as int].delay_minutes
            == departures@[i as int].delay_minutes);
        if departures[i].delay_minutes != 0 {
            return false;
        }
        i += 1;
    }
    true
}

/// The board after the live feed was asked: what the feed has takes its place, and its
/// caveat is added where there is none.
pub open spec fn board_with_live(
    board: (Seq<DepartureView>, Option<ToolWarningView>),
    live: (Seq<DepartureView>, Option<ToolWarningView>),
) -> (Seq<DepartureView>, Option<ToolWarningView>) {
    (
        if live.0.len() > 0 {
            live.0
        } else {
            board.0
        },
        tags::or_else(board.1, live.1),
    )
}

/// The board after the live feed was asked.
pub fn apply_live_data(
    board: (Vec<Departure>, Option<ToolWarning>),
    live: (Vec<Departure>, Option<ToolWarning>),
) -> (r: (Vec<Departure>, Option<ToolWarning>))
    ensures
        r.deep_view() == board_with_live(board.deep_view(), live.deep_view()),
{
    let departures = if live.0.len() > 0 {
        live.0
    } else {
        board.0
    };
    let warning = if board.1.is_some() {
        board.1
    } else {
        live.1
    };
    (departures, warning)
}

/// A departure by a mode; ships go by several names.
pub open spec fn goes_by(mode: Seq<char>, wanted: TransportMode) -> bool {
    match wanted {
        TransportMode::Ship => mode == "ship"@ || mode == "boat"@ || mode == "water"@,
        other => mode == other.name(),
    }
}

/// A departure by one of the modes.
pub open spec fn goes_by_any(d: DepartureView, modes: Seq<TransportMode>) -> bool {
    let mode = text::lowered(
        match d.mode {
            Some(m) => m,
            None => Seq::empty(),
        },
    );
    exists|i: int| 0 <= i < modes.len() && goes_by(mode, #[trigger] modes[i])
}

/// The departures by one of the modes.
pub open spec fn departures_by(departures: Seq<DepartureView>, modes: Seq<TransportMode>) -> Seq<
    DepartureView,
>
    decreases departures.len(),
{
    if departures.len() == 0 {
        Seq::empty()
    } else {
        let before = departures_by(departures.drop_last(), modes);
        if goes_by_any(departures.last(), modes) {
            before.push(departures.last())
        } else {
            before
        }
    }
}

/// The departures that are handed out: by the modes that are asked for, in the order in
/// which they are expected, and as many as asked for at most.
pub open spec fn board(departures: Seq<DepartureView>, modes: Seq<TransportMode>, limit: int) -> Seq<
    DepartureView,
> {
    let kept = if modes.contains(TransportMode::All) {
        departures
    } else {
        departures_by(departures, modes)
    };
    station::first_of(order::sorted::<Departure>(kept), limit)
}

fn check_mode(d: &Departure, modes: &Vec<TransportMode>) -> (r: bool)
    ensures
        r == goes_by_any(d.deep_view(), modes@),
{
    let lower = match &d.mode {
        Some(m) => text::to_lower(m.as_str()),
        None => {
            let s = text::to_lower("");
            proof {
                reveal_strlit("");
                assert(""@ =~= Seq::empty());
            }
            s
        },
    };
    let mode = lower.as_str();
    let mut i: usize = 0;
    while i < modes.len()
        invariant
            i <= modes@.len(),
            mode@ == text::lowered(
                match d.deep_view().mode {
                    Some(m) => m,
                    None => Seq::empty(),
                },
            ),
            forall|k: int| 0 <= k < i ==> !goes_by(mode@, #[trigger] modes@[k]),
        decreases modes@.len() - i,
    {
        let by = match modes[i] {
            TransportMode::Ship => text::same(mode, "ship") || text::same(mode, "boat")
                || text::same(mode, "water"),
            _ => text::same(mode, modes[i].as_str()),
        };
        if by {
            return true;
        }
        i += 1;
    }
    false
}

fn asks_all(modes: &Vec<TransportMode>) -> (r: bool)
    ensures
        r == modes@.contains(TransportMode::All),
{
    let mut i: usize = 0;
    while i < modes.len()
        invariant
            i <= modes@.len(),
            forall|k: int| 0 <= k < i ==> modes@[k] != TransportMode::All,
        decreases modes@.len() - i,
    {
        if modes[i] == TransportMode::All {
            return true;
        }
        i += 1;
    }
    false
}

/// The answer to a question for departures.
pub fn answer_departures(
    departures: Vec<Departure>,
    warning: Option<ToolWarning>,
    modes: &Vec<TransportMode>,
    limit: usize,
) -> (r: DeparturesResponse)
    ensures
        r.deep_view() == (DeparturesResponseView {
            departures: board(departures.deep_view(), modes@, limit as int),
            warning: warning.deep_view(),
        }),
{
    let ghost all = departures.deep_view();
    let kept = if asks_all(modes) {
        departures
    } else {
        let mut out: Vec<Departure> = Vec::new();
        let mut i: usize = 0;
        assert(out.deep_view() =~= departures_by(all.take(0), modes@));
        while i < departures.len()
            invariant
                i <= departures@.len(),
                all == departures.deep_view(),
                out.deep_view() == departures_by(all.take(i as int), modes@),
            decreases departures@.len() - i,
        {
            assert(all.take(i + 1).drop_last() =~= all.take(i as int));
            assert(all.take(i + 1).last() == departures@[i as int].deep_view());
            if check_mode(&departures[i], modes) {
                let ghost before = out.deep_view();
                out.push(departures[i].clone());
                assert(out.deep_view() =~= before.push(departures@[i as int].deep_view()));
            }
            i += 1;
        }
        assert(all.take(i as int) =~= all);
        out
    };
    let mut sorted = order::sort(kept);
    let ghost ordered = sorted.deep_view();
    sorted.truncate(limit);
    assert(sorted.deep_view() =~= station::first_of(ordered, limit as int));
    DeparturesResponse { departures: sorted, warning }
}

// ---------------------------------------------------------------------------
// From two services
// ---------------------------------------------------------------------------

/// A search for departures that goes on with the live feed. It has the board of the
/// journey planner, unless that failed.
#[derive(Debug)]
pub struct BoardSearch {
    board: Option<(Vec<Departure>, Option<ToolWarning>)>,
    modes: Vec<TransportMode>,
    limit: usize,
}

/// The view of a [`BoardSearch`].
#[verifier::ext_equal]
pub struct BoardSearchView {
    pub board: Option<(Seq<DepartureView>, Option<ToolWarningView>)>,
    pub modes: Seq<TransportMode>,
    pub limit: int,
}

impl DeepView for BoardSearch {
    type V = BoardSearchView;

    closed spec fn deep_view(&self) -> BoardSearchView {
        BoardSearchView {
            board: self.board.deep_view(),
            modes: self.modes@,
            limit: self.limit as int,
        }
    }
}

/// How a search for departures goes on.
#[derive(Debug)]
pub enum BoardStep {
    /// The live feed is asked.
    AskFeed(BoardSearch),
    /// This is the outcome.
    Finish(Result<DeparturesResponse, Error>),
}

/// The view of a [`BoardStep`].
#[verifier::ext_equal]
pub enum BoardStepView {
    AskFeed(BoardSearchView),
    Finish(Result<DeparturesResponseView, Seq<char>>),
}

impl DeepView for BoardStep {
    type V = BoardStepView;

    open spec fn deep_view(&self) -> BoardStepView {
        match self {
            BoardStep::AskFeed(search) => BoardStepView::AskFeed(search.deep_view()),
            BoardStep::Finish(outcome) => BoardStepView::Finish(error::outcome(*outcome)),
        }
    }
}

/// The answer with a board.
pub open spec fn board_answer(
    found: (Seq<DepartureView>, Option<ToolWarningView>),
    modes: Seq<TransportMode>,
    limit: int,
) -> BoardStepView {
    BoardStepView::Finish(
        Ok(DeparturesResponseView { departures: board(found.0, modes, limit), warning: found.1 }),
    )
}

/// How a search goes on with a board: without a delay in it, the live feed is asked.
pub open spec fn step_with_board(
    found: (Seq<DepartureView>, Option<ToolWarningView>),
    modes: Seq<TransportMode>,
    limit: int,
) -> BoardStepView {
    if undelayed(found.0) {
        BoardStepView::AskFeed(BoardSearchView { board: Some(found), modes, limit })
    } else {
        board_answer(found, modes, limit)
    }
}

/// How a search goes on after the journey planner was asked. Where it failed, the live feed
/// takes its place.
pub open spec fn step_after_planner(
    planner: Result<(Seq<DepartureView>, Option<ToolWarningView>), Seq<char>>,
    modes: Seq<TransportMode>,
    limit: int,
) -> BoardStepView {
    match planner {
        Ok(found) => step_with_board(found, modes, limit),
        Err(_) => BoardStepView::AskFeed(BoardSearchView { board: None, modes, limit }),
    }
}

/// How a search goes on after the live feed was asked. A failure of the feed matters only
/// where there is no board yet.
pub open spec fn step_after_feed(
    search: BoardSearchView,
    live: Result<(Seq<DepartureView>, Option<ToolWarningView>), Seq<char>>,
) -> BoardStepView {
    match (search.board, live) {
        (None, Ok(found)) => step_with_board(found, search.modes, search.limit),
        (None, Err(message)) => BoardStepView::Finish(Err(message)),
        (Some(found), Ok(more)) => board_answer(
            board_with_live(found, more),
            search.modes,
            search.limit,
        ),
        (Some(found), Err(_)) => board_answer(found, search.modes, search.limit),
    }
}

fn go_on_with_board(
    found: (Vec<Departure>, Option<ToolWarning>),
    modes: Vec<TransportMode>,
    limit: usize,
) -> (r: BoardStep)
    ensures
        r.deep_view() == step_with_board(found.deep_view(), modes@, limit as int),
{
    if needs_live_data(&found.0) {
        BoardStep::AskFeed(BoardSearch { board: Some(found), modes, limit })
    } else {
        BoardStep::Finish(Ok(answer_departures(found.0, found.1, &modes, limit)))
    }
}

/// How a search goes on after the journey planner was asked.
pub fn begin_board(
    planner: Result<(Vec<Departure>, Option<ToolWarning>), Error>,
    modes: Vec<TransportMode>,
    limit: usize,
) -> (r: BoardStep)
    ensures
        r.deep_view() == step_after_planner(error::outcome(planner), modes@, limit as int),
{
    match planner {
        Ok(found) => go_on_with_board(found, modes, limit),
        Err(_) => BoardStep::AskFeed(BoardSearch { board: None, modes, limit }),
    }
}

impl BoardSearch {
    /// How a search goes on after the live feed was asked.
    pub fn take_live(self, live: Result<(Vec<Departure>, Option<ToolWarning>), Error>) -> (r:
        BoardStep)
        ensures
            r.deep_view() == step_after_feed(self.deep_view(), error::outcome(live)),
    {
        match self.board {
            Some(found) => {
                let (departures, warning) = match live {
                    Ok(more) => apply_live_data(found, more),
                    Err(_) => found,
                };
                BoardStep::Finish(
                    Ok(answer_departures(departures, warning, &self.modes, self.limit)),
                )
            },
            None => match live {
                Ok(found) => go_on_with_board(found, self.modes, self.limit),
                Err(e) => BoardStep::Finish(Err(e)),
            },
        }
    }
}

/// A search for departures fails only if both services do, and asks the live feed at most
/// twice.
pub proof fn law_one_service_is_enough(
    planner: Result<(Seq<DepartureView>, Option<ToolWarningView>), Seq<char>>,
    first: Result<(Seq<DepartureView>, Option<ToolWarningView>), Seq<char>>,
    second: Result<(Seq<DepartureView>, Option<ToolWarningView>), Seq<char>>,
    modes: Seq<TransportMode>,
    limit: int,
)
    ensures
        match step_after_planner(planner, modes, limit) {
            BoardStepView::Finish(outcome) => outcome is Ok,
            BoardStepView::AskFeed(search) => match step_after_feed(search, first) {
                BoardStepView::Finish(outcome) => outcome is Err <==> planner is Err && first is Err,
                BoardStepView::AskFeed(again) => step_after_feed(again, second) matches
                    BoardStepView::Finish(Ok(_)),
            },
        },
{
}

/// The answer to a question for a trip; a trip that is not in the feed is a failure.
pub fn answer_trip_details(
    trip_id: &str,
    details: Option<TripDetails>,
    warning: Option<ToolWarning>,
) -> (r: Result<TripDetailsResponse, Error>)
    ensures
        error::outcome(r) == match details.deep_view() {
            Some(trip) => Ok(TripDetailsResponseView { trip, warning: warning.deep_view() }),
            None => Err("trip not found: "@ + trip_id@),
        },
{
    match details {
        Some(trip) => Ok(TripDetailsResponse { trip, warning }),
        None => {
            let mut message = "trip not found: ".to_owned();
            message.append(trip_id);
            Err(error::failure(message))
        },
    }
}

/// The departures that are handed out go by the modes that are asked for, in the order in
/// which they are expected, and are no more than asked for.
pub proof fn law_board(departures: Seq<DepartureView>, modes: Seq<TransportMode>, limit: nat)
    ensures
        board(departures, modes, limit as int).len() <= limit,
        forall|i: int, j: int|
            0 <= i < j < board(departures, modes, limit as int).len() ==> (#[trigger] board(
                departures,
                modes,
                limit as int,
            )[i]).expected.not_after((#[trigger] board(departures, modes, limit as int)[j]).expected),
        !modes.contains(TransportMode::All) ==> forall|i: int|
            0 <= i < board(departures, modes, limit as int).len() ==> goes_by_any(
                #[trigger] board(departures, modes, limit as int)[i],
                modes,
            ),
{
    let kept = if modes.contains(TransportMode::All) {
        departures
    } else {
        departures_by(departures, modes)
    };
    let all = order::sorted::<Departure>(kept);
    assert forall|i: int, j: int| 0 <= i < j < all.len() implies (
    #[trigger] all[i]).expected.not_after((#[trigger] all[j]).expected) by {
        order::law_sorted_is_in_order::<Departure>(kept, i, j);
    }
    if !modes.contains(TransportMode::All) {
        assert forall|i: int| 0 <= i < all.len() implies goes_by_any(#[trigger] all[i], modes) by {
            broadcast use vstd::seq_lib::group_to_multiset_ensures;

            order::law_sorted_keeps_items::<Departure>(kept);
            assert(all.contains(all[i]));
            assert(all.to_multiset().contains(all[i]));
            assert(kept.contains(all[i]));
            let k = choose|k: int| 0 <= k < kept.len() && kept[k] == all[i];
            lemma_departures_by(departures, modes, k);
        }
    }
}

proof fn lemma_departures_by(departures: Seq<DepartureView>, modes: Seq<TransportMode>, i: int)
    requires
        0 <= i < departures_by(departures, modes).len(),
    ensures
        goes_by_any(departures_by(departures, modes)[i], modes),
    decreases departures.len(),
{
    let before = departures_by(departures.drop_last(), modes);
    if i < before.len() {
        lemma_departures_by(departures.drop_last(), modes, i);
    }
}

// ---------------------------------------------------------------------------
// What is on the board
// ---------------------------------------------------------------------------

/// A departure goes by a mode that has a name: rail, bus, tram, cableway, funicular, or a
/// ship under one of three names.
pub open spec fn named_mode(d: DepartureView, mode: TransportMode) -> bool {
    let told = if d.mode is Some {
        text::lowered(d.mode->0)
    } else {
        Seq::empty()
    };
    ||| mode == TransportMode::Rail && told == seq!['r', 'a', 'i', 'l']
    ||| mode == TransportMode::Bus && told == seq!['b', 'u', 's']
    ||| mode == TransportMode::Tram && told == seq!['t', 'r', 'a', 'm']
    ||| mode == TransportMode::Cableway && told == seq!['c', 'a', 'b', 'l', 'e', 'w', 'a', 'y']
    ||| mode == TransportMode::Funicular && told == seq![
        'f',
        'u',
        'n',
        'i',
        'c',
        'u',
        'l',
        'a',
        'r',
    ]
    ||| mode == TransportMode::Ship && (told == seq!['s', 'h', 'i', 'p'] || told == seq![
        'b',
        'o',
        'a',
        't',
    ] || told == seq!['w', 'a', 't', 'e', 'r'])
}

proof fn lemma_named_mode(d: DepartureView, mode: TransportMode)
    requires
        mode != TransportMode::All,
    ensures
        named_mode(d, mode) <==> goes_by(
            text::lowered(
                match d.mode {
                    Some(m) => m,
                    None => Seq::empty(),
                },
            ),
            mode,
        ),
{
    reveal_strlit("rail");
    reveal_strlit("bus");
    reveal_strlit("tram");
    reveal_strlit("cableway");
    reveal_strlit("funicular");
    reveal_strlit("ship");
    reveal_strlit("boat");
    reveal_strlit("water");
    assert("rail"@ =~= seq!['r', 'a', 'i', 'l']);
    assert("bus"@ =~= seq!['b', 'u', 's']);
    assert("tram"@ =~= seq!['t', 'r', 'a', 'm']);
    assert("cableway"@ =~= seq!['c', 'a', 'b', 'l', 'e', 'w', 'a', 'y']);
    assert("funicular"@ =~= seq!['f', 'u', 'n', 'i', 'c', 'u', 'l', 'a', 'r']);
    assert("ship"@ =~= seq!['s', 'h', 'i', 'p']);
    assert("boat"@ =~= seq!['b', 'o', 'a', 't']);
    assert("water"@ =~= seq!['w', 'a', 't', 'e', 'r']);
    assert(text::lowered(Seq::empty()) =~= Seq::empty());
}

proof fn lemma_departures_by_holds(
    departures: Seq<DepartureView>,
    modes: Seq<TransportMode>,
    d: DepartureView,
)
    ensures
        departures_by(departures, modes).contains(d) <==> departures.contains(d) && goes_by_any(
            d,
            modes,
        ),
    decreases departures.len(),
{
    if departures.len() > 0 {
        let t = departures.drop_last();
        lemma_departures_by_holds(t, modes, d);
        let (a, b) = (departures_by(t, modes), departures_by(departures, modes));
        if departures.contains(d) && goes_by_any(d, modes) {
            let k = choose|k: int| 0 <= k < departures.len() && departures[k] == d;
            if k < t.len() {
                assert(t[k] == d);
                let m = choose|m: int| 0 <= m < a.len() && a[m] == d;
                assert(b[m] == d);
            } else {
                assert(b[b.len() - 1] == d);
            }
        }
        if b.contains(d) {
            let m = choose|m: int| 0 <= m < b.len() && b[m] == d;
            if m < a.len() {
                assert(a[m] == d);
                let k = choose|k: int| 0 <= k < t.len() && t[k] == d;
                assert(departures[k] == d);
            } else {
                assert(departures[departures.len() - 1] == d);
            }
        }
    }
}

/// Where there is room for all, a departure is on the board exactly if it was found and
/// goes by one of the modes that are asked for, by name; where all modes are asked for, if
/// it was found.
pub proof fn law_board_holds_the_modes_asked_for(
    departures: Seq<DepartureView>,
    modes: Seq<TransportMode>,
    limit: nat,
    d: DepartureView,
)
    requires
        departures.len() <= limit,
    ensures
        board(departures, modes, limit as int).contains(d) <==> departures.contains(d) && (exists|
            i: int,
        |
            #![trigger modes[i]]
            0 <= i < modes.len() && (modes[i] == TransportMode::All || named_mode(d, modes[i]))),
{
    let kept = asked_for(departures, modes);
    lemma_departures_by_len(departures, modes);
    lemma_board(departures, modes, limit);
    let out = board(departures, modes, limit as int);
    assert(out.contains(d) <==> kept.contains(d)) by {
        if out.contains(d) {
            let i = choose|i: int| 0 <= i < out.len() && out[i] == d;
            assert(kept.contains(out[i]));
        }
    }
    if modes.contains(TransportMode::All) {
        let i = choose|i: int| 0 <= i < modes.len() && modes[i] == TransportMode::All;
        assert(modes[i] == TransportMode::All);
    } else {
        lemma_departures_by_holds(departures, modes, d);
        assert forall|i: int| #![trigger modes[i]] 0 <= i < modes.len() implies (modes[i]
            == TransportMode::All || named_mode(d, modes[i])) == goes_by(
            text::lowered(
                match d.mode {
                    Some(m) => m,
                    None => Seq::empty(),
                },
            ),
            modes[i],
        ) by {
            assert(modes.contains(modes[i]));
            lemma_named_mode(d, modes[i]);
        }
    }
}

proof fn lemma_departures_by_len(departures: Seq<DepartureView>, modes: Seq<TransportMode>)
    ensures
        departures_by(departures, modes).len() <= departures.len(),
    decreases departures.len(),
{
    if departures.len() > 0 {
        lemma_departures_by_len(departures.drop_last(), modes);
    }
}

spec fn asked_for(departures: Seq<DepartureView>, modes: Seq<TransportMode>) -> Seq<
    DepartureView,
> {
    if modes.contains(TransportMode::All) {
        departures
    } else {
        departures_by(departures, modes)
    }
}

proof fn lemma_board(departures: Seq<DepartureView>, modes: Seq<TransportMode>, limit: nat)
    ensures
        ({
            let kept = asked_for(departures, modes);
            let out = board(departures, modes, limit as int);
            &&& out.len() == if kept.len() <= limit {
                kept.len()
            } else {
                limit
            }
            &&& forall|i: int| 0 <= i < out.len() ==> kept.contains(#[trigger] out[i])
            &&& forall|x: DepartureView, i: int|
                kept.contains(x) && !out.contains(x) && 0 <= i < out.len()
                    ==> #[trigger] <Departure as order::Ranked>::precedes(out[i], x)
            &&& kept.len() <= limit ==> forall|x: DepartureView| #[trigger]
                kept.contains(x) ==> out.contains(x)
        }),
{
    let kept = asked_for(departures, modes);
    let out = board(departures, modes, limit as int);
    order::law_sorted_keeps_items::<Departure>(kept);
    assert(out =~= order::sorted::<Departure>(kept).take(
        if kept.len() <= limit {
            kept.len() as int
        } else {
            limit as int
        },
    ));
    order::law_earliest_items_are_kept::<Departure>(kept, out, limit);
}

/// A shorter board is the beginning of a longer one: what is left out for want of room is
/// expected no earlier than what is on the board.
pub proof fn law_shorter_board_is_the_beginning(
    departures: Seq<DepartureView>,
    modes: Seq<TransportMode>,
    limit: nat,
)
    ensures
        ({
            let whole = board(departures, modes, departures.len() as int);
            let out = board(departures, modes, limit as int);
            &&& out.len() == if whole.len() <= limit {
                whole.len()
            } else {
                limit
            }
            &&& forall|i: int| 0 <= i < out.len() ==> #[trigger] out[i] == whole[i]
        }),
{
    lemma_departures_by_len(departures, modes);
    lemma_board(departures, modes, limit);
    lemma_board(departures, modes, departures.len());
}

/// The live feed is asked exactly if the planner failed or no departure of its board is
/// late, and what it has takes the place of the board. The board stays where the feed has
/// nothing or fails.
pub proof fn law_live_departures_take_the_place(
    found: (Seq<DepartureView>, Option<ToolWarningView>),
    live: (Seq<DepartureView>, Option<ToolWarningView>),
    message: Seq<char>,
    modes: Seq<TransportMode>,
    limit: int,
)
    ensures
        step_after_planner(Ok(found), modes, limit) is AskFeed <==> forall|i: int|
            0 <= i < found.0.len() ==> (#[trigger] found.0[i]).delay_minutes == 0,
        step_after_planner(Err(message), modes, limit) is AskFeed,
        step_after_planner(Ok(found), modes, limit) is Finish ==> step_after_planner(
            Ok(found),
            modes,
            limit,
        ) == BoardStepView::Finish(
            Ok(
                DeparturesResponseView {
                    departures: board(found.0, modes, limit),
                    warning: found.1,
                },
            ),
        ),
        step_after_planner(Ok(found), modes, limit) matches BoardStepView::AskFeed(search) ==> {
            &&& step_after_feed(search, Ok(live)) == BoardStepView::Finish(
                Ok(
                    DeparturesResponseView {
                        departures: board(
                            if live.0.len() > 0 {
                                live.0
                            } else {
                                found.0
                            },
                            modes,
                            limit,
                        ),
                        warning: if found.1 is Some {
                            found.1
                        } else {
                            live.1
                        },
                    },
                ),
            )
            &&& step_after_feed(search, Err(message)) == BoardStepView::Finish(
                Ok(
                    DeparturesResponseView {
                        departures: board(found.0, modes, limit),
                        warning: found.1,
                    },
                ),
            )
        },
{
}

/// A station is known by its reference; without one it is searched for by its name, and
/// without either it cannot be found.
pub proof fn law_reference_is_enough(id: Seq<char>, query: Seq<char>)
    requires
        text::trimmed(id).len() > 0,
        text::trimmed(query).len() > 0,
    ensures
        station_step(Some(id), Some(query)) == StationStepView::Known(text::trimmed(id)),
        station_step(Some(id), None) == StationStepView::Known(text::trimmed(id)),
        station_step(None, Some(query)) == StationStepView::Search(text::trimmed(query)),
        station_step(Some(Seq::empty()), Some(query)) == StationStepView::Search(
            text::trimmed(query),
        ),
        station_step(None, None) is Failed,
{
    let e = Seq::<char>::empty();
    assert(text::trimmed_start(e) =~= e);
    assert(text::trimmed(e) =~= e);
}

/// A board is of the station whose reference is given, or else of the one that is searched
/// for; without either it is a failure.
pub proof fn law_station_of_a_board(id: Seq<char>, query: Seq<char>)
    requires
        text::trimmed(id).len() > 0,
        text::trimmed(query).len() > 0,
    ensures
        station_step(Some(id), Some(query)) == StationStepView::Known(text::trimmed(id)),
        station_step(Some(id), None) == StationStepView::Known(text::trimmed(id)),
        station_step(None, Some(query)) == StationStepView::Search(text::trimmed(query)),
        station_step(None, None) == StationStepView::Failed(
            "station_id or station_query is required"@,
        ),
{
}

} // verus!
