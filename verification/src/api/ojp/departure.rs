//! The answer to a question for departures.

use vstd::prelude::*;

use crate::api::ojp::drafts::{TempDeparture, TempDepartureView};
use crate::api::ojp::station;
use crate::api::ojp::tags;
use crate::error;
use crate::error::Error;
use crate::models;
use crate::models::{Departure, DepartureView, TripStatus};
use crate::order;
use crate::order::Ranked;
use crate::text;
use crate::time;
use crate::time::FixedDateTime;
use crate::xml;
use crate::xml::{XmlEvent, XmlItem};

verus! {

impl Ranked for Departure {
    /// Departures go by when they are expected.
    open spec fn precedes(a: DepartureView, b: DepartureView) -> bool {
        a.expected.not_after(b.expected)
    }

    proof fn comparable(a: DepartureView, b: DepartureView) {
    }

    proof fn carries_over(a: DepartureView, b: DepartureView, c: DepartureView) {
    }

    fn may_precede(&self, other: &Self) -> (r: bool) {
        self.expected.is_not_after(&other.expected)
    }
}

/// A departure after a text within a tag.
pub open spec fn departure_with_text(
    draft: TempDepartureView,
    path: Seq<Seq<char>>,
    tag: Seq<char>,
    value: Seq<char>,
) -> TempDepartureView {
    if tag == "JourneyRef"@ {
        TempDepartureView { trip_id: Some(value), ..draft }
    } else if tag == "PublicCode"@ || tag == "PublishedLineName"@ || (tag == "Text"@ && tags::near(
        path,
        "PublishedServiceName"@,
    )) {
        TempDepartureView { line: tags::preferred_line(draft.line, value), ..draft }
    } else if tag == "Mode"@ || tag == "PtMode"@ {
        TempDepartureView { mode: Some(value), ..draft }
    } else if tag == "LocationName"@ || tag == "StopPointName"@ || tag == "Name"@ || tag
        == "Text"@ {
        if tags::near(path, "Destination"@) || tags::near(path, "To"@) {
            TempDepartureView {
                destination: tags::or_else(draft.destination, Some(value)),
                ..draft
            }
        } else {
            draft
        }
    } else if tag == "TimetabledTime"@ {
        TempDepartureView {
            scheduled: tags::or_else(draft.scheduled, tags::ojp_time(value)),
            ..draft
        }
    } else if tag == "EstimatedTime"@ {
        TempDepartureView { expected: tags::ojp_time(value), ..draft }
    } else if tag == "PlannedQuay"@ || tag == "EstimatedQuay"@ || tag == "Platform"@ {
        TempDepartureView { platform: Some(value), ..draft }
    } else if tag == "DatedJourneyStatus"@ || tag == "Status"@ {
        TempDepartureView {
            cancelled: draft.cancelled || text::contains(text::lowered(value), "cancel"@),
            ..draft
        }
    } else {
        draft
    }
}

/// Takes note of a text within a tag.
fn add_departure_text(draft: &mut TempDeparture, path: &Vec<String>, tag: &str, value: String)
    ensures
        final(draft).deep_view() == departure_with_text(
            old(draft).deep_view(),
            path.deep_view(),
            tag@,
            value@,
        ),
{
    if text::same(tag, "JourneyRef") {
        draft.trip_id = Some(value);
    } else if text::same(tag, "PublicCode") || text::same(tag, "PublishedLineName") || (text::same(
        tag,
        "Text",
    ) && tags::path_contains(path, "PublishedServiceName")) {
        tags::set_preferred_line(&mut draft.line, value);
    } else if text::same(tag, "Mode") || text::same(tag, "PtMode") {
        draft.mode = Some(value);
    } else if text::same(tag, "LocationName") || text::same(tag, "StopPointName") || text::same(
        tag,
        "Name",
    ) || text::same(tag, "Text") {
        if tags::path_contains(path, "Destination") || tags::path_contains(path, "To") {
            if draft.destination.is_none() {
                draft.destination = Some(value);
            }
        }
    } else if text::same(tag, "TimetabledTime") {
        if draft.scheduled.is_none() {
            draft.scheduled = tags::parse_ojp_datetime(value.as_str());
        }
    } else if text::same(tag, "EstimatedTime") {
        draft.expected = tags::parse_ojp_datetime(value.as_str());
    } else if text::same(tag, "PlannedQuay") || text::same(tag, "EstimatedQuay") || text::same(
        tag,
        "Platform",
    ) {
        draft.platform = Some(value);
    } else if text::same(tag, "DatedJourneyStatus") || text::same(tag, "Status") {
        let lower = text::to_lower(value.as_str());
        if text::has(lower.as_str(), "cancel") {
            draft.cancelled = true;
        }
    }
}

/// The departure that is handed out. One without a planned time leaves now.
pub open spec fn finished_departure(draft: TempDepartureView, now: FixedDateTime) -> DepartureView {
    let scheduled = match draft.scheduled {
        Some(t) => t,
        None => now,
    };
    let expected = match draft.expected {
        Some(t) => t,
        None => scheduled,
    };
    let delay_minutes = tags::delay(expected, scheduled);
    DepartureView {
        trip_id: draft.trip_id,
        line: draft.line,
        service: models::service_label(draft.mode, draft.line),
        destination: match draft.destination {
            Some(name) => name,
            None => "Unknown destination"@,
        },
        mode: draft.mode,
        scheduled,
        expected,
        delay_minutes,
        platform: draft.platform,
        status: if draft.cancelled {
            TripStatus::Cancelled
        } else {
            TripStatus::of_delay(delay_minutes as int)
        },
    }
}

/// The departure that is handed out.
fn finish_departure(draft: TempDeparture, now: FixedDateTime) -> (r: Departure)
    ensures
        r.deep_view() == finished_departure(draft.deep_view(), now),
{
    let service = models::format_service_label(
        models::as_text(&draft.mode),
        models::as_text(&draft.line),
    );
    let scheduled = match draft.scheduled {
        Some(t) => t,
        None => now,
    };
    let expected = match draft.expected {
        Some(t) => t,
        None => scheduled,
    };
    let delay_minutes: i32 = tags::delay_minutes(expected, scheduled);
    let status = if draft.cancelled {
        TripStatus::Cancelled
    } else {
        TripStatus::from_delay(delay_minutes)
    };
    Departure {
        trip_id: draft.trip_id,
        line: draft.line,
        service,
        destination: match draft.destination {
            Some(name) => name,
            None => "Unknown destination".to_owned(),
        },
        mode: draft.mode,
        scheduled,
        expected,
        delay_minutes,
        platform: draft.platform,
        status,
    }
}

/// A reader of the answer to a question for departures.
#[derive(Debug)]
pub struct DepartureParser {
    /// The open tags, outermost first.
    pub path: Vec<String>,
    /// The departure that is being read.
    pub current: Option<TempDeparture>,
    /// The departures that are complete.
    pub found: Vec<Departure>,
}

/// The view of a [`DepartureParser`].
#[verifier::ext_equal]
pub struct DepartureParserView {
    pub path: Seq<Seq<char>>,
    pub current: Option<TempDepartureView>,
    pub found: Seq<DepartureView>,
}

impl DeepView for DepartureParser {
    type V = DepartureParserView;

    open spec fn deep_view(&self) -> DepartureParserView {
        DepartureParserView {
            path: self.path.deep_view(),
            current: self.current.deep_view(),
            found: self.found.deep_view(),
        }
    }
}

/// The tags that hold a departure.
pub open spec fn departure_tag(tag: Seq<char>) -> bool {
    tag == "StopEventResult"@ || tag == "StopEvent"@
}

impl DepartureParserView {
    /// The reader before a document.
    pub open spec fn blank() -> DepartureParserView {
        DepartureParserView { path: Seq::empty(), current: None, found: Seq::empty() }
    }

    /// The reader after a start tag.
    pub open spec fn started(self, tag: Seq<char>) -> DepartureParserView {
        DepartureParserView {
            path: self.path.push(tag),
            current: if departure_tag(tag) {
                Some(TempDepartureView::blank())
            } else {
                self.current
            },
            found: self.found,
        }
    }

    /// The reader after an end tag.
    pub open spec fn ended(self, tag: Seq<char>, now: FixedDateTime) -> DepartureParserView {
        let path = if self.path.len() > 0 {
            self.path.drop_last()
        } else {
            self.path
        };
        match self.current {
            Some(draft) if departure_tag(tag) => DepartureParserView {
                path,
                current: None,
                found: self.found.push(finished_departure(draft, now)),
            },
            _ => DepartureParserView { path, ..self },
        }
    }

    /// The reader after a text.
    pub open spec fn told(self, value: Seq<char>) -> DepartureParserView {
        let value = text::trimmed(value);
        match self.current {
            Some(draft) if value.len() > 0 => DepartureParserView {
                current: Some(
                    departure_with_text(draft, self.path, tags::innermost(self.path), value),
                ),
                ..self
            },
            _ => self,
        }
    }

    /// The reader after an item of the document.
    pub open spec fn stepped(self, item: XmlItem, now: FixedDateTime) -> DepartureParserView {
        match item {
            XmlItem::Start(name) => self.started(tags::local_part(name)),
            XmlItem::End(name) => self.ended(tags::local_part(name), now),
            XmlItem::Text(value) => self.told(value),
            _ => self,
        }
    }

    /// The reader after the items of a document, or the message of the failure that they
    /// end with.
    pub open spec fn run(self, items: Seq<XmlItem>, now: FixedDateTime) -> Result<
        DepartureParserView,
        Seq<char>,
    >
        decreases items.len(),
    {
        if items.len() == 0 {
            Ok(self)
        } else {
            match items[0] {
                XmlItem::Failed(message) => Err(message),
                item => self.stepped(item, now).run(items.drop_first(), now),
            }
        }
    }
}

impl DepartureParser {
    /// The reader before a document.
    pub fn new() -> (r: DepartureParser)
        ensures
            r.deep_view() == DepartureParserView::blank(),
    {
        let r = DepartureParser { path: Vec::new(), current: None, found: Vec::new() };
        assert(r.deep_view() =~= DepartureParserView::blank());
        r
    }

    fn start(&mut self, tag: String)
        ensures
            final(self).deep_view() == old(self).deep_view().started(tag@),
    {
        let begins = text::same(tag.as_str(), "StopEventResult") || text::same(
            tag.as_str(),
            "StopEvent",
        );
        let ghost before = self.path.deep_view();
        let ghost name = tag@;
        self.path.push(tag);
        assert(self.path.deep_view() =~= before.push(name));
        if begins {
            self.current = Some(TempDeparture::new());
        }
    }

    fn end(&mut self, tag: String, now: FixedDateTime)
        ensures
            final(self).deep_view() == old(self).deep_view().ended(tag@, now),
    {
        if text::same(tag.as_str(), "StopEventResult") || text::same(tag.as_str(), "StopEvent") {
            match self.current.take() {
                Some(draft) => {
                    let departure = finish_departure(draft, now);
                    let ghost before = self.found.deep_view();
                    let ghost view = departure.deep_view();
                    self.found.push(departure);
                    assert(self.found.deep_view() =~= before.push(view));
                },
                None => {},
            }
        }
        let ghost before = self.path.deep_view();
        let _ = self.path.pop();
        assert(self.path.deep_view() =~= (if before.len() > 0 {
            before.drop_last()
        } else {
            before
        }));
    }

    fn tell(&mut self, value: &str)
        ensures
            final(self).deep_view() == old(self).deep_view().told(value@),
    {
        let value = text::trim(value);
        if value.as_str().is_empty() {
            return;
        }
        match self.current.take() {
            Some(mut draft) => {
                let tag = tags::innermost_tag(&self.path);
                add_departure_text(&mut draft, &self.path, tag.as_str(), value);
                self.current = Some(draft);
            },
            None => {},
        }
    }

    /// Takes note of an event of the document.
    pub fn step(&mut self, event: XmlEvent, now: FixedDateTime)
        ensures
            final(self).deep_view() == old(self).deep_view().stepped(event.deep_view(), now),
    {
        match event {
            XmlEvent::Start(name) => {
                let tag = tags::local_name(name.as_str());
                self.start(tag);
            },
            XmlEvent::End(name) => {
                let tag = tags::local_name(name.as_str());
                self.end(tag, now);
            },
            XmlEvent::Text(value) => {
                self.tell(value.as_str());
            },
            XmlEvent::Other => {},
        }
    }
}

/// The departures in the items of a document, by when they are expected.
pub open spec fn departures_of(items: Seq<XmlItem>, limit: int, now: FixedDateTime) -> Result<
    Seq<DepartureView>,
    Seq<char>,
> {
    match DepartureParserView::blank().run(items, now) {
        Ok(parser) => Ok(station::first_of(order::sorted::<Departure>(parser.found), limit)),
        Err(message) => Err(message),
    }
}

/// The departures that the answer to a question for departures holds at a given time.
pub fn parse_departure_response_at(document: &str, limit: usize, now: FixedDateTime) -> (r: Result<
    Vec<Departure>,
    Error,
>)
    ensures
        error::outcome(r) == departures_of(xml::xml_items(document@), limit as int, now),
{
    let mut reader = xml::open_document(document);
    let mut parser = DepartureParser::new();
    let ghost result = DepartureParserView::blank().run(xml::xml_items(document@), now);
    loop
        invariant_except_break
            result == parser.deep_view().run(xml::unread(reader), now),
        invariant
            result == DepartureParserView::blank().run(xml::xml_items(document@), now),
        ensures
            result == Ok::<_, Seq<char>>(parser.deep_view()),
        decreases xml::unread(reader).len(),
    {
        match xml::next_event(&mut reader) {
            Ok(Some(event)) => parser.step(event, now),
            Ok(None) => break,
            Err(message) => return Err(error::failure(message)),
        }
    }
    let mut departures = order::sort(parser.found);
    let ghost all = departures.deep_view();
    departures.truncate(limit);
    assert(departures.deep_view() =~= station::first_of(all, limit as int));
    Ok(departures)
}

/// The departures that the answer to a question for departures holds.
pub fn parse_departure_response(document: &str, limit: usize) -> (r: Result<Vec<Departure>, Error>)
    ensures
        exists|now: FixedDateTime|
            time::zurich_reading(now) && error::outcome(r) == #[trigger] departures_of(
                xml::xml_items(document@),
                limit as int,
                now,
            ),
{
    let now = time::now_fixed();
    parse_departure_response_at(document, limit, now)
}

/// The departures of an answer are in the order in which they are expected, and there are
/// no more of them than asked for.
pub proof fn law_departures_are_in_order(items: Seq<XmlItem>, limit: nat, now: FixedDateTime)
    ensures
        match departures_of(items, limit as int, now) {
            Ok(departures) => {
                &&& departures.len() <= limit
                &&& forall|i: int, j: int|
                    0 <= i < j < departures.len() ==> (
                    #[trigger] departures[i]).expected.not_after((#[trigger] departures[j]).expected)
            },
            Err(_) => true,
        },
{
    match DepartureParserView::blank().run(items, now) {
        Ok(parser) => {
            let all = order::sorted::<Departure>(parser.found);
            assert forall|i: int, j: int| 0 <= i < j < all.len() implies (
            #[trigger] all[i]).expected.not_after((#[trigger] all[j]).expected) by {
                order::law_sorted_is_in_order::<Departure>(parser.found, i, j);
            }
        },
        Err(_) => {},
    }
}

// ---------------------------------------------------------------------------
// What the departures tell of the document
// ---------------------------------------------------------------------------

/// A departure begins blank where its element begins, and is handed out behind the others
/// where it ends. Nothing else adds a departure or takes one away.
pub proof fn law_departure_is_handed_out(
    parser: DepartureParserView,
    item: XmlItem,
    now: FixedDateTime,
)
    ensures
        ({
            let after = parser.stepped(item, now);
            let begins = item matches XmlItem::Start(name) && (tags::local_part(name)
                == "StopEventResult"@ || tags::local_part(name) == "StopEvent"@);
            let ends = parser.current is Some && (item matches XmlItem::End(name) && (
            tags::local_part(name) == "StopEventResult"@ || tags::local_part(name)
                == "StopEvent"@));
            &&& begins ==> after.current is Some && after.current->0.trip_id is None
                && after.current->0.line is None && after.current->0.destination is None
                && after.current->0.mode is None && after.current->0.scheduled is None
                && after.current->0.expected is None && after.current->0.platform is None
                && !after.current->0.cancelled
            &&& ends ==> after.current is None && after.found.len() == parser.found.len() + 1
                && after.found.drop_last() == parser.found
            &&& !ends ==> after.found == parser.found
            &&& !begins && !ends ==> (after.current is Some <==> parser.current is Some)
        }),
{
    let after = parser.stepped(item, now);
    if after.found.len() > parser.found.len() {
        assert(after.found.drop_last() =~= parser.found);
    }
}

/// A departure that is handed out is what was read of it. Without a planned time it leaves
/// now, and without an expected one as planned; it is told to be cancelled, or else late by
/// the whole minutes between the two.
pub proof fn law_departure_is_what_was_read(
    parser: DepartureParserView,
    name: Seq<char>,
    now: FixedDateTime,
)
    requires
        parser.current is Some,
        tags::local_part(name) == "StopEventResult"@ || tags::local_part(name) == "StopEvent"@,
    ensures
        ({
            let draft = parser.current->0;
            let d = parser.stepped(XmlItem::End(name), now).found.last();
            let seconds = crate::time::seconds_apart(d.expected, d.scheduled);
            &&& d.trip_id == draft.trip_id
            &&& d.line == draft.line
            &&& d.mode == draft.mode
            &&& d.platform == draft.platform
            &&& d.service == models::service_label(draft.mode, draft.line)
            &&& draft.destination is Some ==> d.destination == draft.destination->0
            &&& draft.destination is None ==> d.destination == "Unknown destination"@
            &&& draft.scheduled is Some ==> d.scheduled == draft.scheduled->0
            &&& draft.scheduled is None ==> d.scheduled == now
            &&& draft.expected is Some ==> d.expected == draft.expected->0
            &&& draft.expected is None ==> d.expected == d.scheduled
            &&& 0 <= seconds < 100_000_000_000 ==> 60 * d.delay_minutes <= seconds < 60
                * d.delay_minutes + 60
            &&& -100_000_000_000 < seconds < 0 ==> 60 * d.delay_minutes - 60 < seconds <= 60
                * d.delay_minutes
            &&& d.status == TripStatus::Cancelled <==> draft.cancelled
            &&& d.status == TripStatus::Delayed <==> !draft.cancelled && d.delay_minutes >= 1
            &&& d.status == TripStatus::OnTime <==> !draft.cancelled && d.delay_minutes <= 0
        }),
{
}

/// What a text tells of a departure, by the tag that it stands in.
pub proof fn law_texts_of_a_departure(
    draft: TempDepartureView,
    path: Seq<Seq<char>>,
    value: Seq<char>,
)
    ensures
        departure_with_text(draft, path, "JourneyRef"@, value) == (TempDepartureView {
            trip_id: Some(value),
            ..draft
        }),
        departure_with_text(draft, path, "PublicCode"@, value) == (TempDepartureView {
            line: tags::preferred_line(draft.line, value),
            ..draft
        }),
        departure_with_text(draft, path, "PublishedLineName"@, value) == (TempDepartureView {
            line: tags::preferred_line(draft.line, value),
            ..draft
        }),
        tags::near(path, "PublishedServiceName"@) ==> departure_with_text(
            draft,
            path,
            "Text"@,
            value,
        ) == (TempDepartureView { line: tags::preferred_line(draft.line, value), ..draft }),
        departure_with_text(draft, path, "Mode"@, value) == (TempDepartureView {
            mode: Some(value),
            ..draft
        }),
        departure_with_text(draft, path, "PtMode"@, value) == (TempDepartureView {
            mode: Some(value),
            ..draft
        }),
        (tags::near(path, "Destination"@) || tags::near(path, "To"@)) && !tags::near(
            path,
            "PublishedServiceName"@,
        ) && draft.destination is None ==> departure_with_text(draft, path, "Text"@, value) == (
        TempDepartureView { destination: Some(value), ..draft }),
        (tags::near(path, "Destination"@) || tags::near(path, "To"@)) && draft.destination is None
            ==> departure_with_text(draft, path, "StopPointName"@, value) == (TempDepartureView {
            destination: Some(value),
            ..draft
        }),
        draft.destination is Some ==> departure_with_text(draft, path, "StopPointName"@, value)
            == draft,
        !tags::near(path, "Destination"@) && !tags::near(path, "To"@) ==> departure_with_text(
            draft,
            path,
            "StopPointName"@,
            value,
        ) == draft,
        draft.scheduled is None ==> departure_with_text(draft, path, "TimetabledTime"@, value) == (
        TempDepartureView { scheduled: tags::ojp_time(value), ..draft }),
        draft.scheduled is Some ==> departure_with_text(draft, path, "TimetabledTime"@, value)
            == draft,
        departure_with_text(draft, path, "EstimatedTime"@, value) == (TempDepartureView {
            expected: tags::ojp_time(value),
            ..draft
        }),
        departure_with_text(draft, path, "PlannedQuay"@, value) == (TempDepartureView {
            platform: Some(value),
            ..draft
        }),
        departure_with_text(draft, path, "EstimatedQuay"@, value) == (TempDepartureView {
            platform: Some(value),
            ..draft
        }),
        departure_with_text(draft, path, "Platform"@, value) == (TempDepartureView {
            platform: Some(value),
            ..draft
        }),
        departure_with_text(draft, path, "Status"@, value) == (TempDepartureView {
            cancelled: draft.cancelled || text::contains(text::lowered(value), "cancel"@),
            ..draft
        }),
        departure_with_text(draft, path, "DatedJourneyStatus"@, value) == (TempDepartureView {
            cancelled: draft.cancelled || text::contains(text::lowered(value), "cancel"@),
            ..draft
        }),
        departure_with_text(draft, path, "Longitude"@, value) == draft,
{
    tags::lemma_tag_shapes();
}

/// A text counts for the departure that is being read, without the white space around it,
/// within the innermost tag.
pub proof fn law_text_reaches_the_departure(
    parser: DepartureParserView,
    value: Seq<char>,
    now: FixedDateTime,
)
    requires
        parser.current is Some,
        parser.path.len() > 0,
        text::trimmed(value).len() > 0,
    ensures
        parser.stepped(XmlItem::Text(value), now).current == Some(
            departure_with_text(
                parser.current->0,
                parser.path,
                parser.path.last(),
                text::trimmed(value),
            ),
        ),
        parser.stepped(XmlItem::Text(value), now).path == parser.path,
{
}

/// A tag that begins is the innermost one, and where it ends the path is as before.
pub proof fn law_path_is_the_open_tags(
    parser: DepartureParserView,
    a: Seq<char>,
    b: Seq<char>,
    now: FixedDateTime,
)
    ensures
        parser.stepped(XmlItem::Start(a), now).path == parser.path.push(tags::local_part(a)),
        parser.stepped(XmlItem::Start(a), now).stepped(XmlItem::End(b), now).path == parser.path,
{
    assert(parser.path.push(tags::local_part(a)).drop_last() =~= parser.path);
}

/// A document is read item by item, up to its first fault.
pub proof fn law_reading_goes_on(
    parser: DepartureParserView,
    a: Seq<XmlItem>,
    b: Seq<XmlItem>,
    now: FixedDateTime,
)
    ensures
        match parser.run(a, now) {
            Ok(middle) => parser.run(a + b, now) == middle.run(b, now),
            Err(message) => parser.run(a + b, now) == Err::<DepartureParserView, _>(message),
        },
    decreases a.len(),
{
    if a.len() == 0 {
        assert(a + b =~= b);
    } else {
        assert((a + b)[0] == a[0]);
        assert((a + b).drop_first() =~= a.drop_first() + b);
        match a[0] {
            XmlItem::Failed(_) => {},
            item => law_reading_goes_on(parser.stepped(item, now), a.drop_first(), b, now),
        }
    }
}

/// The answer holds the departures that were read, all of them where there is room, and
/// none that is left out is expected before them.
pub proof fn law_answer_holds_the_earliest(items: Seq<XmlItem>, limit: nat, now: FixedDateTime)
    requires
        DepartureParserView::blank().run(items, now) is Ok,
    ensures
        ({
            let read = DepartureParserView::blank().run(items, now)->Ok_0.found;
            let kept = departures_of(items, limit as int, now);
            &&& kept is Ok
            &&& kept->Ok_0.len() == if read.len() <= limit {
                read.len()
            } else {
                limit
            }
            &&& forall|i: int| 0 <= i < kept->Ok_0.len() ==> read.contains(#[trigger] kept->Ok_0[i])
            &&& read.len() <= limit ==> forall|d: DepartureView| #[trigger]
                read.contains(d) ==> kept->Ok_0.contains(d)
            &&& forall|d: DepartureView, i: int|
                #![trigger read.contains(d), kept->Ok_0[i]]
                read.contains(d) && !kept->Ok_0.contains(d) && 0 <= i < kept->Ok_0.len()
                    ==> kept->Ok_0[i].expected.not_after(d.expected)
        }),
{
    let read = DepartureParserView::blank().run(items, now)->Ok_0.found;
    let kept = departures_of(items, limit as int, now)->Ok_0;
    order::law_sorted_keeps_items::<Departure>(read);
    assert(kept =~= order::sorted::<Departure>(read).take(
        if read.len() <= limit {
            read.len() as int
        } else {
            limit as int
        },
    ));
    order::law_earliest_items_are_kept::<Departure>(read, kept, limit);
    assert forall|d: DepartureView, i: int|
        #![trigger read.contains(d), kept[i]]
        read.contains(d) && !kept.contains(d) && 0 <= i < kept.len() implies kept[i].expected.not_after(
        d.expected,
    ) by {
        assert(<Departure as order::Ranked>::precedes(kept[i], d));
    }
}

} // verus!
