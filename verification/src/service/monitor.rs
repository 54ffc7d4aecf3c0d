//! Subscriptions to delay notifications.

use vstd::prelude::*;

use crate::duplicate::Duplicate;
use crate::error;
use crate::error::Error;
use crate::identifier;
use crate::json;
use crate::json::{Json, JsonView};
use crate::mcp::tools;
use crate::models::{
    MonitorSubscription, MonitorSubscriptionView, ToolWarning, ToolWarningView, TripDetails,
    TripDetailsView,
};
use crate::text;
use crate::time;
use crate::time::FixedDateTime;

verus! {

/// A subscription to notifications about a trip.
#[derive(Debug)]
pub struct SubscriptionState {
    /// Its reference.
    pub subscription_id: String,
    /// The trip.
    pub trip_id: String,
    /// The delay from which on to notify, in minutes.
    pub threshold_minutes: i32,
    /// The delay that was last notified, in minutes.
    pub last_reported_delay_minutes: i32,
    /// When it was made.
    pub created_at: FixedDateTime,
}

/// The view of a [`SubscriptionState`].
#[verifier::ext_equal]
pub struct SubscriptionStateView {
    pub subscription_id: Seq<char>,
    pub trip_id: Seq<char>,
    pub threshold_minutes: i32,
    pub last_reported_delay_minutes: i32,
    pub created_at: FixedDateTime,
}

impl DeepView for SubscriptionState {
    type V = SubscriptionStateView;

    open spec fn deep_view(&self) -> SubscriptionStateView {
        SubscriptionStateView {
            subscription_id: self.subscription_id@,
            trip_id: self.trip_id@,
            threshold_minutes: self.threshold_minutes,
            last_reported_delay_minutes: self.last_reported_delay_minutes,
            created_at: self.created_at,
        }
    }
}

impl Duplicate for SubscriptionState {
    fn duplicate(&self) -> (r: Self) {
        SubscriptionState {
            subscription_id: self.subscription_id.clone(),
            trip_id: self.trip_id.clone(),
            threshold_minutes: self.threshold_minutes,
            last_reported_delay_minutes: self.last_reported_delay_minutes,
            created_at: self.created_at,
        }
    }
}

/// The delay from which on to notify: 10 minutes by default, and at least one.
pub open spec fn threshold(given: Option<i32>) -> i32 {
    match given {
        Some(n) => if n < 1 {
            1
        } else {
            n
        },
        None => 10,
    }
}

/// The subscriptions without those of a reference.
pub open spec fn without_id(subscriptions: Seq<SubscriptionStateView>, id: Seq<char>) -> Seq<
    SubscriptionStateView,
>
    decreases subscriptions.len(),
{
    if subscriptions.len() == 0 {
        Seq::empty()
    } else {
        let before = without_id(subscriptions.drop_last(), id);
        if subscriptions.last().subscription_id == id {
            before
        } else {
            before.push(subscriptions.last())
        }
    }
}

/// A subscription that nothing was notified of yet.
pub open spec fn new_subscription(
    id: Seq<char>,
    trip_id: Seq<char>,
    notify: Option<i32>,
    now: FixedDateTime,
) -> SubscriptionStateView {
    SubscriptionStateView {
        subscription_id: id,
        trip_id,
        threshold_minutes: threshold(notify),
        last_reported_delay_minutes: 0,
        created_at: now,
    }
}

/// A delay that is worth a notification: it reaches the threshold and exceeds what was
/// last notified.
pub open spec fn due(s: SubscriptionStateView, delay_minutes: i32) -> bool {
    delay_minutes >= s.threshold_minutes && delay_minutes > s.last_reported_delay_minutes
}

/// The subscriptions after a delay was notified.
pub open spec fn reported(subscriptions: Seq<SubscriptionStateView>, id: Seq<char>, delay_minutes: i32) -> Seq<
    SubscriptionStateView,
> {
    Seq::new(
        subscriptions.len(),
        |i: int|
            if subscriptions[i].subscription_id == id {
                SubscriptionStateView {
                    last_reported_delay_minutes: delay_minutes,
                    ..subscriptions[i]
                }
            } else {
                subscriptions[i]
            },
    )
}

/// A caveat as JSON.
pub open spec fn warning_json(warning: Option<ToolWarningView>) -> JsonView {
    match warning {
        Some(w) => JsonView::Object(
            seq![tools::text_field("message"@, w.message), ("stale"@, JsonView::Bool(w.stale))],
        ),
        None => JsonView::Null,
    }
}

/// The notification of a delay.
pub open spec fn notification(
    s: SubscriptionStateView,
    delay_minutes: i32,
    warning: Option<ToolWarningView>,
) -> JsonView {
    JsonView::Object(
        seq![
            tools::text_field("jsonrpc"@, "2.0"@),
            tools::text_field("method"@, "notifications/message"@),
            (
                "params"@,
                JsonView::Object(
                    seq![
                        tools::text_field("level"@, "info"@),
                        (
                            "data"@,
                            JsonView::Object(
                                seq![
                                    tools::text_field("subscriptionId"@, s.subscription_id),
                                    tools::text_field("tripId"@, s.trip_id),
                                    (
                                        "delayMinutes"@,
                                        JsonView::Number(text::decimal_int(delay_minutes as int)),
                                    ),
                                    (
                                        "thresholdMinutes"@,
                                        JsonView::Number(
                                            text::decimal_int(s.threshold_minutes as int),
                                        ),
                                    ),
                                    ("warning"@, warning_json(warning)),
                                ],
                            ),
                        ),
                    ],
                ),
            ),
        ],
    )
}

fn write_warning(warning: &Option<ToolWarning>) -> (r: Json)
    ensures
        r.deep_view() == warning_json(warning.deep_view()),
{
    match warning {
        Some(w) => {
            let mut fields: Vec<(String, Json)> = Vec::new();
            assert(json::field_views(fields@) =~= Seq::empty());
            tools::add_field(&mut fields, "message", Json::text(w.message.as_str()));
            tools::add_field(&mut fields, "stale", Json::Bool(w.stale));
            assert(json::field_views(fields@) =~= seq![
                tools::text_field("message"@, w.message@),
                ("stale"@, JsonView::Bool(w.stale)),
            ]);
            Json::object(fields)
        },
        None => Json::Null,
    }
}

fn write_notification(s: &SubscriptionState, delay_minutes: i32, warning: &Option<ToolWarning>) -> (r:
    Json)
    ensures
        r.deep_view() == notification(s.deep_view(), delay_minutes, warning.deep_view()),
{
    let ghost view = s.deep_view();
    let ghost caveat = warning_json(warning.deep_view());
    let mut data: Vec<(String, Json)> = Vec::new();
    assert(json::field_views(data@) =~= Seq::empty());
    tools::add_field(&mut data, "subscriptionId", Json::text(s.subscription_id.as_str()));
    tools::add_field(&mut data, "tripId", Json::text(s.trip_id.as_str()));
    let delay = text::write_decimal_int(delay_minutes as i64);
    tools::add_field(&mut data, "delayMinutes", Json::Number(delay));
    let limit = text::write_decimal_int(s.threshold_minutes as i64);
    tools::add_field(&mut data, "thresholdMinutes", Json::Number(limit));
    tools::add_field(&mut data, "warning", write_warning(warning));
    let ghost data_view = seq![
        tools::text_field("subscriptionId"@, view.subscription_id),
        tools::text_field("tripId"@, view.trip_id),
        ("delayMinutes"@, JsonView::Number(text::decimal_int(delay_minutes as int))),
        ("thresholdMinutes"@, JsonView::Number(text::decimal_int(view.threshold_minutes as int))),
        ("warning"@, caveat),
    ];
    assert(json::field_views(data@) =~= data_view);
    let mut params: Vec<(String, Json)> = Vec::new();
    assert(json::field_views(params@) =~= Seq::empty());
    tools::add_field(&mut params, "level", Json::text("info"));
    tools::add_field(&mut params, "data", Json::object(data));
    let ghost params_view = seq![
        tools::text_field("level"@, "info"@),
        ("data"@, JsonView::Object(data_view)),
    ];
    assert(json::field_views(params@) =~= params_view);
    let mut fields: Vec<(String, Json)> = Vec::new();
    assert(json::field_views(fields@) =~= Seq::empty());
    tools::add_field(&mut fields, "jsonrpc", Json::text("2.0"));
    tools::add_field(&mut fields, "method", Json::text("notifications/message"));
    tools::add_field(&mut fields, "params", Json::object(params));
    assert(json::field_views(fields@) =~= seq![
        tools::text_field("jsonrpc"@, "2.0"@),
        tools::text_field("method"@, "notifications/message"@),
        ("params"@, JsonView::Object(params_view)),
    ]);
    Json::object(fields)
}

/// The notification that a subscription is due for a delay, if it is.
pub fn check_subscription(
    s: &SubscriptionState,
    delay_minutes: i32,
    warning: &Option<ToolWarning>,
) -> (r: Option<Json>)
    ensures
        r.deep_view() == if due(s.deep_view(), delay_minutes) {
            Some(notification(s.deep_view(), delay_minutes, warning.deep_view()))
        } else {
            None
        },
{
    if delay_minutes >= s.threshold_minutes && delay_minutes > s.last_reported_delay_minutes {
        Some(write_notification(s, delay_minutes, warning))
    } else {
        None
    }
}

/// What is known of a trip that is monitored: live data on it, if the feed has any, or the
/// message of the failure to get the feed.
pub type TripOutcomeView = Result<(Option<TripDetailsView>, Option<ToolWarningView>), Seq<char>>;

/// The outcomes of questions for trips.
pub open spec fn trip_outcomes(
    outcomes: Seq<Result<(Option<TripDetails>, Option<ToolWarning>), Error>>,
) -> Seq<TripOutcomeView> {
    Seq::new(outcomes.len(), |i: int| error::outcome(outcomes[i]))
}

/// The subscriptions after a round of checks, and the notifications that are due. The
/// outcomes are those for the first trips of the snapshot. A failure ends the round; what
/// was taken note of before it stays.
pub open spec fn after_round(
    subscriptions: Seq<SubscriptionStateView>,
    snapshot: Seq<SubscriptionStateView>,
    outcomes: Seq<TripOutcomeView>,
) -> (Seq<SubscriptionStateView>, Result<Seq<JsonView>, Seq<char>>)
    decreases outcomes.len(),
{
    if outcomes.len() == 0 {
        (subscriptions, Ok(Seq::empty()))
    } else {
        let (now, so_far) = after_round(subscriptions, snapshot, outcomes.drop_last());
        let s = snapshot[outcomes.len() - 1];
        match (so_far, outcomes.last()) {
            (Err(message), _) => (now, Err(message)),
            (Ok(_), Err(message)) => (now, Err(message)),
            (Ok(notes), Ok((Some(details), warning))) => {
                let delay = details.current_delay_minutes;
                if due(s, delay) {
                    (
                        reported(now, s.subscription_id, delay),
                        Ok(notes.push(notification(s, delay, warning))),
                    )
                } else {
                    (now, Ok(notes))
                }
            },
            (Ok(notes), Ok((None, _))) => (now, Ok(notes)),
        }
    }
}

/// The subscriptions of the client. No two of them have the same reference.
#[derive(Debug)]
pub struct Monitor {
    /// The subscriptions, in no particular order.
    subscriptions: Vec<SubscriptionState>,
}

impl DeepView for Monitor {
    type V = Seq<SubscriptionStateView>;

    closed spec fn deep_view(&self) -> Seq<SubscriptionStateView> {
        self.subscriptions.deep_view()
    }
}

impl Monitor {
    #[verifier::type_invariant]
    spec fn well_formed(self) -> bool {
        distinct_references(self.subscriptions.deep_view())
    }

    /// No subscriptions.
    pub fn new() -> (r: Monitor)
        ensures
            r.deep_view() == Seq::<SubscriptionStateView>::empty(),
    {
        let r = Monitor { subscriptions: Vec::new() };
        assert(r.deep_view() =~= Seq::<SubscriptionStateView>::empty());
        r
    }

    /// Makes a subscription under a reference at a given time.
    pub fn subscribe_as(
        &mut self,
        id: String,
        trip_id: &str,
        notify_on_delay_minutes: Option<i32>,
        now: FixedDateTime,
    ) -> (r: MonitorSubscription)
        ensures
            final(self).deep_view() == without_id(old(self).deep_view(), id@).push(
                new_subscription(id@, trip_id@, notify_on_delay_minutes, now),
            ),
            r.deep_view() == (MonitorSubscriptionView {
                subscription_id: id@,
                trip_id: trip_id@,
                notify_on_delay_minutes: threshold(notify_on_delay_minutes),
                created_at: now,
            }),
    {
        let limit: i32 = match notify_on_delay_minutes {
            Some(n) => if n < 1 {
                1
            } else {
                n
            },
            None => 10,
        };
        let ghost all = self.deep_view();
        let mut kept: Vec<SubscriptionState> = Vec::new();
        let mut i: usize = 0;
        assert(kept.deep_view() =~= without_id(all.take(0), id@));
        while i < self.subscriptions.len()
            invariant
                i <= self.subscriptions@.len(),
                all == self.subscriptions.deep_view(),
                kept.deep_view() == without_id(all.take(i as int), id@),
            decreases self.subscriptions@.len() - i,
        {
            assert(all.take(i + 1).drop_last() =~= all.take(i as int));
            assert(all.take(i + 1).last() == self.subscriptions@[i as int].deep_view());
            if !text::same(self.subscriptions[i].subscription_id.as_str(), id.as_str()) {
                let ghost before = kept.deep_view();
                kept.push(self.subscriptions[i].duplicate());
                assert(kept.deep_view() =~= before.push(
                    self.subscriptions@[i as int].deep_view(),
                ));
            }
            i += 1;
        }
        assert(all.take(i as int) =~= all);
        let entry = SubscriptionState {
            subscription_id: id.clone(),
            trip_id: trip_id.to_owned(),
            threshold_minutes: limit,
            last_reported_delay_minutes: 0,
            created_at: now,
        };
        let ghost before = kept.deep_view();
        let ghost view = entry.deep_view();
        kept.push(entry);
        assert(kept.deep_view() =~= before.push(view));
        proof {
            use_type_invariant(&*self);
            law_references_stay_distinct(all, id@, trip_id@, notify_on_delay_minutes, now);
        }
        self.subscriptions = kept;
        MonitorSubscription {
            subscription_id: id,
            trip_id: trip_id.to_owned(),
            notify_on_delay_minutes: limit,
            created_at: now,
        }
    }

    /// Makes a subscription under a random reference.
    pub fn subscribe(&mut self, trip_id: &str, notify_on_delay_minutes: Option<i32>) -> (r:
        MonitorSubscription)
        ensures
            identifier::uuid_shaped(r.deep_view().subscription_id),
            time::zurich_reading(r.created_at),
            r.deep_view().trip_id == trip_id@,
            r.deep_view().notify_on_delay_minutes == threshold(notify_on_delay_minutes),
            final(self).deep_view() == without_id(
                old(self).deep_view(),
                r.deep_view().subscription_id,
            ).push(
                new_subscription(
                    r.deep_view().subscription_id,
                    trip_id@,
                    notify_on_delay_minutes,
                    r.created_at,
                ),
            ),
    {
        let id = identifier::new_identifier();
        let now = time::now_fixed();
        self.subscribe_as(id, trip_id, notify_on_delay_minutes, now)
    }

    /// The subscriptions as they are now.
    pub fn snapshot(&self) -> (r: Vec<SubscriptionState>)
        ensures
            r.deep_view() == self.deep_view(),
            distinct_references(self.deep_view()),
    {
        proof {
            use_type_invariant(self);
        }
        self.subscriptions.duplicate()
    }

    /// Takes note of a delay that was notified.
    pub fn report(&mut self, id: &str, delay_minutes: i32)
        ensures
            final(self).deep_view() == reported(old(self).deep_view(), id@, delay_minutes),
    {
        let ghost all = self.deep_view();
        let mut marked: Vec<SubscriptionState> = Vec::new();
        let mut i: usize = 0;
        while i < self.subscriptions.len()
            invariant
                i <= self.subscriptions@.len(),
                all == self.subscriptions.deep_view(),
                marked@.len() == i,
                forall|k: int|
                    0 <= k < i ==> (#[trigger] marked@[k]).deep_view() == reported(
                        all,
                        id@,
                        delay_minutes,
                    )[k],
            decreases self.subscriptions@.len() - i,
        {
            assert(all[i as int] == self.subscriptions@[i as int].deep_view());
            let mut entry = self.subscriptions[i].duplicate();
            if text::same(entry.subscription_id.as_str(), id) {
                entry.last_reported_delay_minutes = delay_minutes;
            }
            marked.push(entry);
            i += 1;
        }
        assert(marked.deep_view() =~= reported(all, id@, delay_minutes));
        proof {
            use_type_invariant(&*self);
            law_delay_keeps_references_distinct(all, id@, delay_minutes);
        }
        self.subscriptions = marked;
    }

    /// The notifications that are due, given what is known of the first trips of a
    /// snapshot.
    pub fn run_round(
        &mut self,
        snapshot: &Vec<SubscriptionState>,
        outcomes: &Vec<Result<(Option<TripDetails>, Option<ToolWarning>), Error>>,
    ) -> (r: Result<Vec<Json>, Error>)
        requires
            outcomes@.len() <= snapshot@.len(),
        ensures
            final(self).deep_view() == after_round(
                old(self).deep_view(),
                snapshot.deep_view(),
                trip_outcomes(outcomes@),
            ).0,
            match r {
                Ok(notes) => Ok(json::views(notes@)),
                Err(e) => Err(e.deep_view()),
            } == after_round(
                old(self).deep_view(),
                snapshot.deep_view(),
                trip_outcomes(outcomes@),
            ).1,
    {
        let ghost first = self.deep_view();
        let ghost taken = snapshot.deep_view();
        let ghost all = trip_outcomes(outcomes@);
        let mut notes: Vec<Json> = Vec::new();
        let mut i: usize = 0;
        assert(json::views(notes@) =~= Seq::empty());
        while i < outcomes.len()
            invariant
                i <= outcomes@.len(),
                outcomes@.len() <= snapshot@.len(),
                first == old(self).deep_view(),
                taken == snapshot.deep_view(),
                all == trip_outcomes(outcomes@),
                after_round(first, taken, all.take(i as int)) == (
                    self.deep_view(),
                    Ok::<Seq<JsonView>, Seq<char>>(json::views(notes@)),
                ),
            decreases outcomes@.len() - i,
        {
            assert(all.take(i + 1).drop_last() =~= all.take(i as int));
            assert(all.take(i + 1).last() == error::outcome(outcomes@[i as int]));
            assert(taken[i as int] == snapshot@[i as int].deep_view());
            match &outcomes[i] {
                Ok((Some(details), warning)) => {
                    let delay: i32 = details.current_delay_minutes;
                    match check_subscription(&snapshot[i], delay, warning) {
                        Some(note) => {
                            let ghost before = json::views(notes@);
                            let ghost view = note.deep_view();
                            notes.push(note);
                            assert(json::views(notes@) =~= before.push(view));
                            self.report(snapshot[i].subscription_id.as_str(), delay);
                        },
                        None => {},
                    }
                },
                Ok((None, _)) => {},
                Err(e) => {
                    let message = e.message.clone();
                    proof {
                        lemma_failure_ends_round(first, taken, all, i + 1);
                    }
                    return Err(error::failure(message));
                },
            }
            i += 1;
        }
        assert(all.take(i as int) =~= all);
        Ok(notes)
    }
}

proof fn lemma_failure_ends_round(
    subscriptions: Seq<SubscriptionStateView>,
    snapshot: Seq<SubscriptionStateView>,
    outcomes: Seq<TripOutcomeView>,
    n: int,
)
    requires
        0 <= n <= outcomes.len(),
        after_round(subscriptions, snapshot, outcomes.take(n)).1 is Err,
    ensures
        after_round(subscriptions, snapshot, outcomes) == after_round(
            subscriptions,
            snapshot,
            outcomes.take(n),
        ),
    decreases outcomes.len(),
{
    if n < outcomes.len() {
        assert(outcomes.drop_last().take(n) =~= outcomes.take(n));
        lemma_failure_ends_round(subscriptions, snapshot, outcomes.drop_last(), n);
    } else {
        assert(outcomes.take(n) =~= outcomes);
    }
}

/// No two subscriptions have the same reference.
pub open spec fn distinct_references(subscriptions: Seq<SubscriptionStateView>) -> bool {
    forall|i: int, j: int|
        0 <= i < j < subscriptions.len() ==> (#[trigger] subscriptions[i]).subscription_id != (
        #[trigger] subscriptions[j]).subscription_id
}

proof fn lemma_without_id(subscriptions: Seq<SubscriptionStateView>, id: Seq<char>)
    requires
        distinct_references(subscriptions),
    ensures
        distinct_references(without_id(subscriptions, id)),
        forall|i: int|
            0 <= i < without_id(subscriptions, id).len() ==> subscriptions.contains(
                #[trigger] without_id(subscriptions, id)[i],
            ) && without_id(subscriptions, id)[i].subscription_id != id,
    decreases subscriptions.len(),
{
    if subscriptions.len() > 0 {
        let shorter = subscriptions.drop_last();
        let before = without_id(shorter, id);
        let after = without_id(subscriptions, id);
        assert(distinct_references(shorter)) by {
            assert forall|i: int, j: int|
                0 <= i < j < shorter.len() implies (#[trigger] shorter[i]).subscription_id != (
            #[trigger] shorter[j]).subscription_id by {
                assert(shorter[i] == subscriptions[i] && shorter[j] == subscriptions[j]);
            }
        }
        lemma_without_id(shorter, id);
        assert forall|i: int| 0 <= i < after.len() implies subscriptions.contains(
            #[trigger] after[i],
        ) && after[i].subscription_id != id by {
            if i < before.len() {
                assert(after[i] == before[i]);
                let k = choose|k: int| 0 <= k < shorter.len() && shorter[k] == before[i];
                assert(subscriptions[k] == before[i]);
            } else {
                assert(subscriptions[subscriptions.len() - 1] == after[i]);
            }
        }
        assert forall|i: int, j: int| 0 <= i < j < after.len() implies (
        #[trigger] after[i]).subscription_id != (#[trigger] after[j]).subscription_id by {
            assert(after[i] == before[i]);
            if j < before.len() {
                assert(after[j] == before[j]);
            } else {
                let k = choose|k: int| 0 <= k < shorter.len() && shorter[k] == before[i];
                assert(subscriptions[k] == before[i]);
                assert(subscriptions[subscriptions.len() - 1] == after[j]);
            }
        }
    }
}

/// References stay distinct when a subscription is made.
pub proof fn law_references_stay_distinct(
    subscriptions: Seq<SubscriptionStateView>,
    id: Seq<char>,
    trip_id: Seq<char>,
    notify: Option<i32>,
    now: FixedDateTime,
)
    requires
        distinct_references(subscriptions),
    ensures
        distinct_references(
            without_id(subscriptions, id).push(new_subscription(id, trip_id, notify, now)),
        ),
{
    lemma_without_id(subscriptions, id);
    let kept = without_id(subscriptions, id);
    let more = kept.push(new_subscription(id, trip_id, notify, now));
    assert forall|i: int, j: int| 0 <= i < j < more.len() implies (
    #[trigger] more[i]).subscription_id != (#[trigger] more[j]).subscription_id by {
        assert(more[i] == kept[i]);
        if j < kept.len() {
            assert(more[j] == kept[j]);
        }
    }
}

/// References stay distinct when a delay is taken note of.
pub proof fn law_delay_keeps_references_distinct(
    subscriptions: Seq<SubscriptionStateView>,
    id: Seq<char>,
    delay_minutes: i32,
)
    requires
        distinct_references(subscriptions),
    ensures
        distinct_references(reported(subscriptions, id, delay_minutes)),
{
    let marked = reported(subscriptions, id, delay_minutes);
    assert forall|i: int, j: int| 0 <= i < j < marked.len() implies (
    #[trigger] marked[i]).subscription_id != (#[trigger] marked[j]).subscription_id by {
        assert(subscriptions[i].subscription_id != subscriptions[j].subscription_id);
    }
}

/// The delay that an outcome tells of is not due.
spec fn settled(s: SubscriptionStateView, outcome: TripOutcomeView) -> bool {
    outcome matches Ok((Some(details), _)) ==> !due(s, details.current_delay_minutes)
}

proof fn lemma_round_settles(subscriptions: Seq<SubscriptionStateView>, outcomes: Seq<TripOutcomeView>)
    requires
        distinct_references(subscriptions),
        outcomes.len() <= subscriptions.len(),
        after_round(subscriptions, subscriptions, outcomes).1 is Ok,
    ensures
        ({
            let after = after_round(subscriptions, subscriptions, outcomes).0;
            &&& after.len() == subscriptions.len()
            &&& forall|i: int| 0 <= i < outcomes.len() ==> settled(#[trigger] after[i], outcomes[i])
            &&& forall|i: int| 0 <= i < outcomes.len() ==> outcomes[i] is Ok
            &&& forall|i: int|
                outcomes.len() <= i < subscriptions.len() ==> #[trigger] after[i]
                    == subscriptions[i]
        }),
    decreases outcomes.len(),
{
    if outcomes.len() > 0 {
        let k = outcomes.len() - 1;
        let shorter = outcomes.drop_last();
        lemma_round_settles(subscriptions, shorter);
        let before = after_round(subscriptions, subscriptions, shorter).0;
        let after = after_round(subscriptions, subscriptions, outcomes).0;
        assert(before[k] == subscriptions[k]);
        assert forall|i: int| 0 <= i < outcomes.len() implies settled(
            #[trigger] after[i],
            outcomes[i],
        ) by {
            if i < k {
                lemma_references_kept(subscriptions, subscriptions, shorter, i);
                assert(subscriptions[i].subscription_id != subscriptions[k].subscription_id);
                assert(shorter[i] == outcomes[i]);
                assert(settled(before[i], shorter[i]));
                assert(after[i] == before[i]);
            }
        }
        assert forall|i: int| 0 <= i < outcomes.len() implies outcomes[i] is Ok by {
            if i < k {
                assert(shorter[i] == outcomes[i]);
            }
        }
        assert forall|i: int| outcomes.len() <= i < subscriptions.len() implies #[trigger] after[i]
            == subscriptions[i] by {
            assert(before[i] == subscriptions[i]);
            assert(subscriptions[k].subscription_id != subscriptions[i].subscription_id);
        }
    }
}

proof fn lemma_references_kept(
    subscriptions: Seq<SubscriptionStateView>,
    snapshot: Seq<SubscriptionStateView>,
    outcomes: Seq<TripOutcomeView>,
    i: int,
)
    requires
        0 <= i < subscriptions.len(),
    ensures
        after_round(subscriptions, snapshot, outcomes).0.len() == subscriptions.len(),
        after_round(subscriptions, snapshot, outcomes).0[i].subscription_id
            == subscriptions[i].subscription_id,
    decreases outcomes.len(),
{
    if outcomes.len() > 0 {
        lemma_references_kept(subscriptions, snapshot, outcomes.drop_last(), i);
    }
}

proof fn lemma_settled_is_quiet(subscriptions: Seq<SubscriptionStateView>, outcomes: Seq<TripOutcomeView>)
    requires
        outcomes.len() <= subscriptions.len(),
        forall|i: int| 0 <= i < outcomes.len() ==> outcomes[i] is Ok,
        forall|i: int|
            0 <= i < outcomes.len() ==> settled(#[trigger] subscriptions[i], outcomes[i]),
    ensures
        after_round(subscriptions, subscriptions, outcomes) == (
            subscriptions,
            Ok::<Seq<JsonView>, Seq<char>>(Seq::empty()),
        ),
    decreases outcomes.len(),
{
    if outcomes.len() > 0 {
        let k = outcomes.len() - 1;
        let shorter = outcomes.drop_last();
        assert forall|i: int| 0 <= i < shorter.len() implies shorter[i] is Ok by {
            assert(shorter[i] == outcomes[i]);
        }
        assert forall|i: int| 0 <= i < shorter.len() implies settled(
            #[trigger] subscriptions[i],
            shorter[i],
        ) by {
            assert(shorter[i] == outcomes[i]);
        }
        lemma_settled_is_quiet(subscriptions, shorter);
        assert(settled(subscriptions[k], outcomes[k]));
        assert(outcomes[k] is Ok);
    }
}

/// After a round of checks, another one with the same delays notifies of nothing.
pub proof fn law_second_round_is_quiet(
    subscriptions: Seq<SubscriptionStateView>,
    outcomes: Seq<TripOutcomeView>,
)
    requires
        distinct_references(subscriptions),
        outcomes.len() <= subscriptions.len(),
        after_round(subscriptions, subscriptions, outcomes).1 is Ok,
    ensures
        ({
            let after = after_round(subscriptions, subscriptions, outcomes).0;
            after_round(after, after, outcomes) == (
                after,
                Ok::<Seq<JsonView>, Seq<char>>(Seq::empty()),
            )
        }),
{
    lemma_round_settles(subscriptions, outcomes);
    lemma_settled_is_quiet(after_round(subscriptions, subscriptions, outcomes).0, outcomes);
}

/// The same delay is not notified twice, nor is a smaller one: after a notification only
/// a larger delay is due.
pub proof fn law_only_larger_delays_are_notified(
    subscriptions: Seq<SubscriptionStateView>,
    i: int,
    delay_minutes: i32,
    later: i32,
)
    requires
        0 <= i < subscriptions.len(),
    ensures
        due(
            reported(subscriptions, subscriptions[i].subscription_id, delay_minutes)[i],
            later,
        ) ==> later > delay_minutes && later >= subscriptions[i].threshold_minutes,
{
}

/// What is notified is a delay of at least a minute.
pub proof fn law_notified_delays_are_positive(
    id: Seq<char>,
    trip_id: Seq<char>,
    notify: Option<i32>,
    now: FixedDateTime,
    delay_minutes: i32,
)
    ensures
        due(new_subscription(id, trip_id, notify, now), delay_minutes) ==> delay_minutes >= 1,
{
}

/// Taking note of a delay changes no other subscription.
pub proof fn law_other_subscriptions_stay(
    subscriptions: Seq<SubscriptionStateView>,
    id: Seq<char>,
    delay_minutes: i32,
    i: int,
)
    requires
        0 <= i < subscriptions.len(),
        subscriptions[i].subscription_id != id,
    ensures
        reported(subscriptions, id, delay_minutes).len() == subscriptions.len(),
        reported(subscriptions, id, delay_minutes)[i] == subscriptions[i],
{
}

/// A delay is notified from ten minutes on unless something else is asked for, and never one
/// of less than a minute.
pub proof fn law_threshold_is_as_asked(n: i32)
    ensures
        threshold(None) == 10,
        n >= 1 ==> threshold(Some(n)) == n,
        n < 1 ==> threshold(Some(n)) == 1,
{
}

/// A subscription is for the trip and the threshold that were asked for, and nothing was
/// notified of it yet.
pub proof fn law_subscription_is_as_asked(
    id: Seq<char>,
    trip_id: Seq<char>,
    notify: i32,
    now: FixedDateTime,
)
    ensures
        ({
            let s = new_subscription(id, trip_id, Some(notify), now);
            &&& s.subscription_id == id
            &&& s.trip_id == trip_id
            &&& notify >= 1 ==> s.threshold_minutes == notify
            &&& s.last_reported_delay_minutes == 0
            &&& s.created_at == now
            &&& new_subscription(id, trip_id, None, now).threshold_minutes == 10
        }),
{
}

/// Unsubscribing drops the subscriptions of that reference and keeps every other one.
pub proof fn law_only_the_reference_is_dropped(
    subscriptions: Seq<SubscriptionStateView>,
    s: SubscriptionStateView,
    id: Seq<char>,
)
    ensures
        without_id(Seq::empty(), id).len() == 0,
        s.subscription_id == id ==> without_id(subscriptions.push(s), id) == without_id(
            subscriptions,
            id,
        ),
        s.subscription_id != id ==> without_id(subscriptions.push(s), id) == without_id(
            subscriptions,
            id,
        ).push(s),
{
    assert(subscriptions.push(s).drop_last() =~= subscriptions);
}

/// A delay is due from the threshold on, if it is more than what was last notified.
pub proof fn law_delays_that_are_due(s: SubscriptionStateView, delay_minutes: i32)
    ensures
        delay_minutes < s.threshold_minutes ==> !due(s, delay_minutes),
        delay_minutes <= s.last_reported_delay_minutes ==> !due(s, delay_minutes),
        s.last_reported_delay_minutes < s.threshold_minutes ==> due(s, s.threshold_minutes),
        s.threshold_minutes <= s.last_reported_delay_minutes < delay_minutes ==> due(
            s,
            delay_minutes,
        ),
{
}

/// After a notification its delay is the last notified one, and nothing else is changed.
pub proof fn law_delay_is_taken_note_of(
    subscriptions: Seq<SubscriptionStateView>,
    id: Seq<char>,
    delay_minutes: i32,
    i: int,
)
    requires
        0 <= i < subscriptions.len(),
    ensures
        ({
            let after = reported(subscriptions, id, delay_minutes);
            &&& after.len() == subscriptions.len()
            &&& subscriptions[i].subscription_id == id ==> after[i].last_reported_delay_minutes
                == delay_minutes
            &&& after[i].subscription_id == subscriptions[i].subscription_id
            &&& after[i].trip_id == subscriptions[i].trip_id
            &&& after[i].threshold_minutes == subscriptions[i].threshold_minutes
            &&& after[i].created_at == subscriptions[i].created_at
        }),
{
}

/// A round goes on trip by trip: a delay that is due adds its notification and is taken note
/// of, any other delay and a trip without details change nothing, and the first failure ends
/// the round.
pub proof fn law_round_goes_on(
    subscriptions: Seq<SubscriptionStateView>,
    snapshot: Seq<SubscriptionStateView>,
    outcomes: Seq<TripOutcomeView>,
    details: TripDetailsView,
    warning: Option<ToolWarningView>,
    message: Seq<char>,
)
    requires
        outcomes.len() < snapshot.len(),
        after_round(subscriptions, snapshot, outcomes).1 is Ok,
    ensures
        ({
            let (now, told) = after_round(subscriptions, snapshot, outcomes);
            let s = snapshot[outcomes.len() as int];
            let delay = details.current_delay_minutes;
            let with = after_round(
                subscriptions,
                snapshot,
                outcomes.push(Ok((Some(details), warning))),
            );
            let without = after_round(subscriptions, snapshot, outcomes.push(Ok((None, warning))));
            let failed = after_round(subscriptions, snapshot, outcomes.push(Err(message)));
            let is_due = delay >= s.threshold_minutes && delay > s.last_reported_delay_minutes;
            &&& is_due ==> with.1 == Ok::<Seq<JsonView>, Seq<char>>(
                told->Ok_0.push(notification(s, delay, warning)),
            )
            &&& is_due ==> with.0 == reported(now, s.subscription_id, delay)
            &&& !is_due ==> with == (now, told)
            &&& without == (now, told)
            &&& failed == (now, Err::<Seq<JsonView>, Seq<char>>(message))
            &&& after_round(
                subscriptions,
                snapshot,
                outcomes.push(Err(message)).push(Ok((Some(details), warning))),
            ) == failed
        }),
        after_round(subscriptions, snapshot, Seq::empty()) == (
            subscriptions,
            Ok::<Seq<JsonView>, Seq<char>>(Seq::empty()),
        ),
{
    assert(outcomes.push(Ok((Some(details), warning))).drop_last() =~= outcomes);
    assert(outcomes.push(Ok((None, warning))).drop_last() =~= outcomes);
    let ended = outcomes.push(Err(message));
    assert(ended.drop_last() =~= outcomes);
    assert(ended.push(Ok((Some(details), warning))).drop_last() =~= ended);
}

/// A notification tells the reference, the trip, the delay, the threshold and the caveat,
/// each in its place.
pub proof fn law_notification_tells_the_delay(
    s: SubscriptionStateView,
    delay_minutes: i32,
    w: ToolWarningView,
)
    ensures
        ({
            let n = notification(s, delay_minutes, Some(w));
            let params = n->Object_0[2].1;
            let data = params->Object_0[1].1;
            let fields = data->Object_0;
            let caveat = fields[4].1->Object_0;
            &&& n is Object && n->Object_0.len() == 3
            &&& n->Object_0[0] == ("jsonrpc"@, JsonView::Text("2.0"@))
            &&& n->Object_0[1] == ("method"@, JsonView::Text("notifications/message"@))
            &&& n->Object_0[2].0 == "params"@ && params is Object && params->Object_0.len() == 2
            &&& params->Object_0[0] == ("level"@, JsonView::Text("info"@))
            &&& params->Object_0[1].0 == "data"@ && data is Object && fields.len() == 5
            &&& fields[0] == ("subscriptionId"@, JsonView::Text(s.subscription_id))
            &&& fields[1] == ("tripId"@, JsonView::Text(s.trip_id))
            &&& fields[2] == (
                "delayMinutes"@,
                JsonView::Number(text::decimal_int(delay_minutes as int)),
            )
            &&& fields[3] == (
                "thresholdMinutes"@,
                JsonView::Number(text::decimal_int(s.threshold_minutes as int)),
            )
            &&& fields[4].0 == "warning"@ && fields[4].1 is Object && caveat.len() == 2
            &&& caveat[0] == ("message"@, JsonView::Text(w.message))
            &&& caveat[1] == ("stale"@, JsonView::Bool(w.stale))
            &&& warning_json(None) == JsonView::Null
        }),
{
}

} // verus!
