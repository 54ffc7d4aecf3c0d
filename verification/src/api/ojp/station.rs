//! The answer to a station search.

use vstd::prelude::*;

use crate::api::ojp::drafts::{TempStation, TempStationView};
use crate::api::ojp::tags;
use crate::coordinate;
use crate::coordinate::Coordinate;
use crate::error;
use crate::error::Error;
use crate::models::{Station, StationType, StationView};
use crate::text;
use crate::xml;
use crate::xml::{XmlEvent, XmlItem};

verus! {

/// A search result of which only the kind is known.
pub open spec fn blank_station(kind: StationType, whole: bool) -> TempStationView {
    TempStationView {
        id: None,
        name: None,
        latitude: None,
        longitude: None,
        station_type: kind,
        finalize_on_location_end: whole,
    }
}

/// A search result of which only the kind is known.
fn new_station(kind: StationType, whole: bool) -> (r: TempStation)
    ensures
        r.deep_view() == blank_station(kind, whole),
{
    TempStation {
        id: None,
        name: None,
        latitude: None,
        longitude: None,
        station_type: kind,
        finalize_on_location_end: whole,
    }
}

/// The station that a search result describes. It needs a name, which stands for a
/// reference that is missing.
pub open spec fn finished_station(draft: TempStationView) -> Option<StationView> {
    match draft.name {
        Some(name) => Some(
            StationView {
                id: match draft.id {
                    Some(id) => id,
                    None => name,
                },
                name,
                latitude: draft.latitude,
                longitude: draft.longitude,
                station_type: draft.station_type,
            },
        ),
        None => None,
    }
}

/// The station that a search result describes.
fn finish_station(draft: TempStation) -> (r: Option<Station>)
    ensures
        r.deep_view() == finished_station(draft.deep_view()),
{
    match draft.name {
        Some(name) => {
            let id = match draft.id {
                Some(id) => id,
                None => name.clone(),
            };
            Some(
                Station {
                    id,
                    name,
                    latitude: draft.latitude,
                    longitude: draft.longitude,
                    station_type: draft.station_type,
                },
            )
        },
        None => None,
    }
}

/// The tags that hold a reference.
pub open spec fn id_tag(tag: Seq<char>) -> bool {
    ||| tag == "StopPlaceRef"@
    ||| tag == "StopPointRef"@
    ||| tag == "TopographicPlaceCode"@
    ||| tag == "AddressCode"@
    ||| tag == "id"@
}

/// The tags that hold a name.
pub open spec fn name_tag(tag: Seq<char>) -> bool {
    ||| tag == "StopPlaceName"@
    ||| tag == "StopPointName"@
    ||| tag == "AddressName"@
    ||| tag == "PointOfInterestName"@
    ||| tag == "LocationName"@
    ||| tag == "TopographicPlaceName"@
    ||| tag == "Name"@
    ||| tag == "Text"@
}

/// A search result after a text within a tag was read.
pub open spec fn station_with_text(
    draft: TempStationView,
    tag: Seq<char>,
    value: Seq<char>,
) -> TempStationView {
    if id_tag(tag) {
        TempStationView { id: tags::or_else(draft.id, Some(value)), ..draft }
    } else if name_tag(tag) {
        TempStationView { name: tags::or_else(draft.name, Some(value)), ..draft }
    } else if tag == "Longitude"@ {
        TempStationView { longitude: coordinate::coordinate_value(value), ..draft }
    } else if tag == "Latitude"@ {
        TempStationView { latitude: coordinate::coordinate_value(value), ..draft }
    } else {
        draft
    }
}

/// Takes note of a text within a tag.
fn add_station_text(draft: &mut TempStation, tag: &str, value: String)
    ensures
        final(draft).deep_view() == station_with_text(old(draft).deep_view(), tag@, value@),
{
    if text::same(tag, "StopPlaceRef") || text::same(tag, "StopPointRef") || text::same(
        tag,
        "TopographicPlaceCode",
    ) || text::same(tag, "AddressCode") || text::same(tag, "id") {
        if draft.id.is_none() {
            draft.id = Some(value);
        }
    } else if text::same(tag, "StopPlaceName") || text::same(tag, "StopPointName") || text::same(
        tag,
        "AddressName",
    ) || text::same(tag, "PointOfInterestName") || text::same(tag, "LocationName") || text::same(
        tag,
        "TopographicPlaceName",
    ) || text::same(tag, "Name") || text::same(tag, "Text") {
        if draft.name.is_none() {
            draft.name = Some(value);
        }
    } else if text::same(tag, "Longitude") {
        draft.longitude = Coordinate::parse(value.as_str());
    } else if text::same(tag, "Latitude") {
        draft.latitude = Coordinate::parse(value.as_str());
    }
}

/// A reader of the answer to a station search.
#[derive(Debug)]
pub struct StationParser {
    /// The open tags, outermost first.
    pub path: Vec<String>,
    /// The search result that is being read.
    pub current: Option<TempStation>,
    /// The stations that are complete.
    pub found: Vec<Station>,
}

/// The view of a [`StationParser`].
#[verifier::ext_equal]
pub struct StationParserView {
    pub path: Seq<Seq<char>>,
    pub current: Option<TempStationView>,
    pub found: Seq<StationView>,
}

impl DeepView for StationParser {
    type V = StationParserView;

    open spec fn deep_view(&self) -> StationParserView {
        StationParserView {
            path: self.path.deep_view(),
            current: self.current.deep_view(),
            found: self.found.deep_view(),
        }
    }
}

impl StationParserView {
    /// The reader before a document.
    pub open spec fn blank() -> StationParserView {
        StationParserView { path: Seq::empty(), current: None, found: Seq::empty() }
    }

    /// The reader after a start tag: a result that a `Location` wraps is begun, and so is
    /// one that stands alone. A place within a result says what that result is.
    pub open spec fn started(self, tag: Seq<char>) -> StationParserView {
        let path = self.path.push(tag);
        let wrapped = if tags::result_tag(path, tag) {
            Some(blank_station(StationType::Unknown, true))
        } else {
            self.current
        };
        let current = if tags::station_tag(tag) {
            match wrapped {
                Some(draft) => Some(
                    TempStationView { station_type: tags::station_kind(tag), ..draft },
                ),
                None => Some(blank_station(tags::station_kind(tag), false)),
            }
        } else {
            wrapped
        };
        StationParserView { path, current, found: self.found }
    }

    /// An end tag that completes the result that is being read.
    pub open spec fn completes(self, tag: Seq<char>) -> bool {
        match self.current {
            Some(draft) => if draft.finalize_on_location_end {
                tags::result_tag(self.path, tag)
            } else {
                tags::station_tag(tag)
            },
            None => false,
        }
    }

    /// The reader after an end tag.
    pub open spec fn ended(self, tag: Seq<char>) -> StationParserView {
        let path = if self.path.len() > 0 {
            self.path.drop_last()
        } else {
            self.path
        };
        if self.completes(tag) {
            StationParserView {
                path,
                current: None,
                found: match finished_station(self.current->0) {
                    Some(station) => self.found.push(station),
                    None => self.found,
                },
            }
        } else {
            StationParserView { path, ..self }
        }
    }

    /// The reader after a text.
    pub open spec fn told(self, value: Seq<char>) -> StationParserView {
        let value = text::trimmed(value);
        match self.current {
            Some(draft) if value.len() > 0 => StationParserView {
                current: Some(station_with_text(draft, tags::innermost(self.path), value)),
                ..self
            },
            _ => self,
        }
    }

    /// The reader after an item of the document.
    pub open spec fn stepped(self, item: XmlItem) -> StationParserView {
        match item {
            XmlItem::Start(name) => self.started(tags::local_part(name)),
            XmlItem::End(name) => self.ended(tags::local_part(name)),
            XmlItem::Text(value) => self.told(value),
            _ => self,
        }
    }

    /// The reader after the items of a document, or the message of the failure that they
    /// end with.
    pub open spec fn run(self, items: Seq<XmlItem>) -> Result<StationParserView, Seq<char>>
        decreases items.len(),
    {
        if items.len() == 0 {
            Ok(self)
        } else {
            match items[0] {
                XmlItem::Failed(message) => Err(message),
                item => self.stepped(item).run(items.drop_first()),
            }
        }
    }
}

impl StationParser {
    /// The reader before a document.
    pub fn new() -> (r: StationParser)
        ensures
            r.deep_view() == StationParserView::blank(),
    {
        let r = StationParser { path: Vec::new(), current: None, found: Vec::new() };
        assert(r.deep_view() =~= StationParserView::blank());
        r
    }

    /// Takes note of a start tag.
    fn start(&mut self, tag: String)
        ensures
            final(self).deep_view() == old(self).deep_view().started(tag@),
    {
        let ghost before = self.path.deep_view();
        let name = tag.clone();
        self.path.push(tag);
        assert(self.path.deep_view() =~= before.push(name@));
        if tags::is_location_result_container(&self.path, name.as_str()) {
            self.current = Some(new_station(StationType::Unknown, true));
        }
        if tags::is_station_container(name.as_str()) {
            let kind = tags::station_type_from_tag(name.as_str());
            match self.current.take() {
                Some(mut draft) => {
                    draft.station_type = kind;
                    self.current = Some(draft);
                },
                None => {
                    self.current = Some(new_station(kind, false));
                },
            }
        }
    }

    /// Takes note of an end tag.
    fn end(&mut self, tag: String)
        ensures
            final(self).deep_view() == old(self).deep_view().ended(tag@),
    {
        let complete = match &self.current {
            Some(draft) => if draft.finalize_on_location_end {
                tags::is_location_result_container(&self.path, tag.as_str())
            } else {
                tags::is_station_container(tag.as_str())
            },
            None => false,
        };
        if complete {
            match self.current.take() {
                Some(draft) => match finish_station(draft) {
                    Some(station) => {
                        let ghost before = self.found.deep_view();
                        let ghost view = station.deep_view();
                        self.found.push(station);
                        assert(self.found.deep_view() =~= before.push(view));
                    },
                    None => {},
                },
                None => {},
            }
        }
        let ghost before = self.path.deep_view();
        let _ = self.path.pop();
        assert(self.path.deep_view() =~= (if before.len() > 0 {
            before.drop_last()
        } else {
            before
        }));
    }

    /// Takes note of a text.
    fn tell(&mut self, value: &str)
        ensures
            final(self).deep_view() == old(self).deep_view().told(value@),
    {
        let value = text::trim(value);
        if value.as_str().is_empty() {
            return;
        }
        match self.current.take() {
            Some(mut draft) => {
                let tag = tags::innermost_tag(&self.path);
                add_station_text(&mut draft, tag.as_str(), value);
                self.current = Some(draft);
            },
            None => {},
        }
    }

    /// Takes note of an event of the document.
    pub fn step(&mut self, event: XmlEvent)
        ensures
            final(self).deep_view() == old(self).deep_view().stepped(event.deep_view()),
    {
        match event {
            XmlEvent::Start(name) => {
                let tag = tags::local_name(name.as_str());
                self.start(tag);
            },
            XmlEvent::End(name) => {
                let tag = tags::local_name(name.as_str());
                self.end(tag);
            },
            XmlEvent::Text(value) => {
                self.tell(value.as_str());
            },
            XmlEvent::Other => {},
        }
    }
}

/// Some station of a list has the reference.
pub open spec fn has_id(stations: Seq<StationView>, id: Seq<char>) -> bool {
    exists|i: int| 0 <= i < stations.len() && (#[trigger] stations[i]).id == id
}

/// The first station of each reference.
pub open spec fn distinct(stations: Seq<StationView>) -> Seq<StationView>
    decreases stations.len(),
{
    if stations.len() == 0 {
        Seq::empty()
    } else {
        let before = distinct(stations.drop_last());
        if has_id(before, stations.last().id) {
            before
        } else {
            before.push(stations.last())
        }
    }
}

/// Whether some station of a list has the reference.
pub fn contains_id(stations: &Vec<Station>, id: &str) -> (r: bool)
    ensures
        r == has_id(stations.deep_view(), id@),
{
    let mut i: usize = 0;
    while i < stations.len()
        invariant
            i <= stations@.len(),
            forall|k: int| 0 <= k < i ==> (#[trigger] stations.deep_view()[k]).id != id@,
        decreases stations@.len() - i,
    {
        assert(stations.deep_view()[i as int] == stations@[i as int].deep_view());
        if text::same(stations[i].id.as_str(), id) {
            assert(stations.deep_view()[i as int].id == id@);
            return true;
        }
        i += 1;
    }
    false
}

/// The first of up to `limit` items.
pub open spec fn first_of<T>(items: Seq<T>, limit: int) -> Seq<T> {
    if items.len() <= limit {
        items
    } else {
        items.take(limit)
    }
}

/// The first station of each reference.
fn keep_distinct(stations: Vec<Station>) -> (r: Vec<Station>)
    ensures
        r.deep_view() == distinct(stations.deep_view()),
{
    let ghost all = stations.deep_view();
    let mut kept: Vec<Station> = Vec::new();
    let mut i: usize = 0;
    assert(kept.deep_view() =~= distinct(all.take(0)));
    while i < stations.len()
        invariant
            all == stations.deep_view(),
            i <= stations@.len(),
            kept.deep_view() == distinct(all.take(i as int)),
        decreases stations@.len() - i,
    {
        assert(all.take(i + 1).drop_last() =~= all.take(i as int));
        assert(all.take(i + 1).last() == stations@[i as int].deep_view());
        if !contains_id(&kept, stations[i].id.as_str()) {
            let ghost before = kept.deep_view();
            kept.push(stations[i].clone());
            assert(kept.deep_view() =~= before.push(stations@[i as int].deep_view()));
        }
        i += 1;
    }
    assert(all.take(i as int) =~= all);
    kept
}

/// The stations in the items of a document.
pub open spec fn stations_of(items: Seq<XmlItem>, limit: int) -> Result<
    Seq<StationView>,
    Seq<char>,
> {
    match StationParserView::blank().run(items) {
        Ok(parser) => Ok(first_of(distinct(parser.found), limit)),
        Err(message) => Err(message),
    }
}

/// The stations that the answer to a station search holds.
pub fn parse_station_response(document: &str, limit: usize) -> (r: Result<Vec<Station>, Error>)
    ensures
        error::outcome(r) == stations_of(xml::xml_items(document@), limit as int),
{
    let mut reader = xml::open_document(document);
    let mut parser = StationParser::new();
    let ghost result = StationParserView::blank().run(xml::xml_items(document@));
    loop
        invariant_except_break
            result == parser.deep_view().run(xml::unread(reader)),
        invariant
            result == StationParserView::blank().run(xml::xml_items(document@)),
        ensures
            result == Ok::<_, Seq<char>>(parser.deep_view()),
        decreases xml::unread(reader).len(),
    {
        match xml::next_event(&mut reader) {
            Ok(Some(event)) => parser.step(event),
            Ok(None) => break,
            Err(message) => return Err(error::failure(message)),
        }
    }
    let mut stations = keep_distinct(parser.found);
    let ghost kept = stations.deep_view();
    stations.truncate(limit);
    assert(stations.deep_view() =~= first_of(kept, limit as int));
    Ok(stations)
}

/// No two stations of an answer have the same reference, and there are no more of them
/// than asked for.
pub proof fn law_stations_are_distinct(items: Seq<XmlItem>, limit: nat)
    ensures
        match stations_of(items, limit as int) {
            Ok(stations) => {
                &&& stations.len() <= limit
                &&& forall|i: int, j: int|
                    0 <= i < j < stations.len() ==> (#[trigger] stations[i]).id != (
                    #[trigger] stations[j]).id
            },
            Err(_) => true,
        },
{
    match StationParserView::blank().run(items) {
        Ok(parser) => lemma_distinct(parser.found),
        Err(_) => {},
    }
}

proof fn lemma_distinct(stations: Seq<StationView>)
    ensures
        forall|i: int, j: int|
            0 <= i < j < distinct(stations).len() ==> (#[trigger] distinct(stations)[i]).id != (
            #[trigger] distinct(stations)[j]).id,
    decreases stations.len(),
{
    if stations.len() > 0 {
        lemma_distinct(stations.drop_last());
    }
}

// ---------------------------------------------------------------------------
// What the stations tell of the document
// ---------------------------------------------------------------------------

/// The first items of a list are its beginning, as many as asked for as far as there are so
/// many.
pub proof fn law_first_items_are_the_beginning<T>(items: Seq<T>, limit: nat)
    ensures
        first_of(items, limit as int).len() == if items.len() <= limit {
            items.len()
        } else {
            limit
        },
        forall|i: int|
            0 <= i < first_of(items, limit as int).len() ==> #[trigger] first_of(
                items,
                limit as int,
            )[i] == items[i],
{
}

/// What a text tells of a search result, by the tag that it stands in. The first reference
/// and the first name stay.
pub proof fn law_texts_of_a_station(draft: TempStationView, tag: Seq<char>, value: Seq<char>)
    ensures
        ({
            let after = station_with_text(draft, tag, value);
            let refers = tag == "StopPlaceRef"@ || tag == "StopPointRef"@ || tag
                == "TopographicPlaceCode"@ || tag == "AddressCode"@ || tag == "id"@;
            let names = tag == "StopPlaceName"@ || tag == "StopPointName"@ || tag == "AddressName"@
                || tag == "PointOfInterestName"@ || tag == "LocationName"@ || tag
                == "TopographicPlaceName"@ || tag == "Name"@ || tag == "Text"@;
            &&& refers && draft.id is None ==> after == (TempStationView {
                id: Some(value),
                ..draft
            })
            &&& refers && draft.id is Some ==> after == draft
            &&& names && draft.name is None ==> after == (TempStationView {
                name: Some(value),
                ..draft
            })
            &&& names && draft.name is Some ==> after == draft
            &&& tag == "Longitude"@ ==> after == (TempStationView {
                longitude: coordinate::coordinate_value(value),
                ..draft
            })
            &&& tag == "Latitude"@ ==> after == (TempStationView {
                latitude: coordinate::coordinate_value(value),
                ..draft
            })
        }),
{
    tags::lemma_tag_shapes();
}

/// A search result with a name is a station behind the others where its element ends. It
/// goes by its reference, or else by its name, and has its place and kind. Nothing else
/// adds a station or takes one away.
pub proof fn law_station_is_handed_out(parser: StationParserView, item: XmlItem)
    ensures
        ({
            let after = parser.stepped(item);
            let draft = parser.current->0;
            let s = after.found.last();
            &&& after.found.len() > parser.found.len() ==> {
                &&& item is End
                &&& parser.current is Some
                &&& draft.name is Some
                &&& after.current is None
                &&& after.found.len() == parser.found.len() + 1
                &&& after.found.drop_last() == parser.found
                &&& s.name == draft.name->0
                &&& draft.id is Some ==> s.id == draft.id->0
                &&& draft.id is None ==> s.id == draft.name->0
                &&& s.latitude == draft.latitude
                &&& s.longitude == draft.longitude
                &&& s.station_type == draft.station_type
            }
            &&& after.found.len() >= parser.found.len()
            &&& after.found.len() == parser.found.len() ==> after.found == parser.found
        }),
{
    let after = parser.stepped(item);
    if after.found.len() > parser.found.len() {
        assert(after.found.drop_last() =~= parser.found);
    }
}

/// A result that stands alone ends with its own element, and one within a location with the
/// location.
pub proof fn law_results_end_with_their_elements(parser: StationParserView, name: Seq<char>)
    requires
        parser.current is Some,
        parser.current->0.name is Some,
    ensures
        ({
            let tag = tags::local_part(name);
            let after = parser.stepped(XmlItem::End(name));
            let alone = !parser.current->0.finalize_on_location_end;
            let n = parser.path.len();
            &&& alone && (tag == "StopPlace"@ || tag == "StopPoint"@ || tag == "Address"@ || tag
                == "PointOfInterest"@ || tag == "TopographicPlace"@) ==> after.found.len()
                == parser.found.len() + 1
            &&& !alone && tag == "Location"@ && n >= 2 && (parser.path[n - 2] == "Location"@
                || parser.path[n - 2] == "OJPLocationInformationDelivery"@) ==> after.found.len()
                == parser.found.len() + 1
            &&& !alone && tag != "Location"@ ==> after.found == parser.found && after.current
                == parser.current
        }),
{
}

/// A place begins a result of its kind, or says what the result around it is.
pub proof fn law_place_says_what_it_is(parser: StationParserView, name: Seq<char>)
    ensures
        ({
            let tag = tags::local_part(name);
            let after = parser.stepped(XmlItem::Start(name)).current;
            let kind = after->0.station_type;
            &&& tag == "StopPlace"@ || tag == "StopPoint"@ ==> after is Some && kind
                == StationType::Stop
            &&& tag == "Address"@ ==> after is Some && kind == StationType::Address
            &&& tag == "PointOfInterest"@ || tag == "TopographicPlace"@ ==> after is Some && kind
                == StationType::Poi
            &&& (tag == "StopPlace"@ || tag == "StopPoint"@ || tag == "Address"@)
                && parser.current is Some ==> after->0.name == parser.current->0.name
                && after->0.id == parser.current->0.id && after->0.latitude
                == parser.current->0.latitude
            &&& (tag == "StopPlace"@ || tag == "StopPoint"@ || tag == "Address"@)
                && parser.current is None ==> after->0.name is None && after->0.id is None
                && !after->0.finalize_on_location_end
            &&& tag == "Location"@ && parser.path.len() > 0 && (parser.path.last() == "Location"@
                || parser.path.last() == "OJPLocationInformationDelivery"@) ==> after is Some
                && after->0.finalize_on_location_end && after->0.name is None && after->0.id is None
        }),
{
    tags::lemma_tag_shapes();
    tags::law_kinds_of_places();
    let tag = tags::local_part(name);
    let path = parser.path.push(tag);
    if parser.path.len() > 0 {
        assert(path[path.len() - 2] == parser.path.last());
    }
}

/// A text counts for the result that is being read, without the white space around it.
pub proof fn law_text_reaches_the_station(parser: StationParserView, value: Seq<char>)
    requires
        parser.current is Some,
        parser.path.len() > 0,
        text::trimmed(value).len() > 0,
    ensures
        parser.stepped(XmlItem::Text(value)).current == Some(
            station_with_text(parser.current->0, parser.path.last(), text::trimmed(value)),
        ),
        parser.stepped(XmlItem::Text(value)).path == parser.path,
{
}

/// A tag that begins is the innermost one, and where it ends the path is as before.
pub proof fn law_path_is_the_open_tags(parser: StationParserView, a: Seq<char>, b: Seq<char>)
    ensures
        parser.stepped(XmlItem::Start(a)).path == parser.path.push(tags::local_part(a)),
        parser.stepped(XmlItem::Start(a)).stepped(XmlItem::End(b)).path == parser.path,
{
    assert(parser.path.push(tags::local_part(a)).drop_last() =~= parser.path);
}

/// A document is read item by item, up to its first fault.
pub proof fn law_reading_goes_on(parser: StationParserView, a: Seq<XmlItem>, b: Seq<XmlItem>)
    ensures
        match parser.run(a) {
            Ok(middle) => parser.run(a + b) == middle.run(b),
            Err(message) => parser.run(a + b) == Err::<StationParserView, _>(message),
        },
    decreases a.len(),
{
    if a.len() == 0 {
        assert(a + b =~= b);
    } else {
        assert((a + b)[0] == a[0]);
        assert((a + b).drop_first() =~= a.drop_first() + b);
        match a[0] {
            XmlItem::Failed(_) => {},
            item => law_reading_goes_on(parser.stepped(item), a.drop_first(), b),
        }
    }
}

/// Of the stations that were read the first of each reference is kept: each one that is
/// kept was read, and each one that was read has its reference among those kept.
pub proof fn law_first_of_each_reference_is_kept(read: Seq<StationView>, i: int)
    requires
        0 <= i < read.len(),
    ensures
        exists|k: int|
            #![trigger distinct(read)[k]]
            0 <= k < distinct(read).len() && distinct(read)[k].id == read[i].id,
        (forall|j: int| 0 <= j < i ==> (#[trigger] read[j]).id != read[i].id) ==> distinct(
            read,
        ).contains(read[i]),
        forall|k: int| 0 <= k < distinct(read).len() ==> read.contains(#[trigger] distinct(read)[k]),
    decreases read.len(),
{
    let before = read.drop_last();
    let last = read.last();
    let (a, b) = (distinct(before), distinct(read));
    lemma_distinct_from(before);
    assert forall|k: int| 0 <= k < b.len() implies read.contains(#[trigger] b[k]) by {
        if k < a.len() {
            assert(b[k] == a[k]);
            let m = choose|m: int| 0 <= m < before.len() && before[m] == a[k];
            assert(read[m] == b[k]);
        } else {
            assert(read[read.len() - 1] == b[k]);
        }
    }
    if i < before.len() {
        law_first_of_each_reference_is_kept(before, i);
        let k = choose|k: int| #![trigger a[k]] 0 <= k < a.len() && a[k].id == before[i].id;
        assert(b[k].id == read[i].id);
        if forall|j: int| 0 <= j < i ==> (#[trigger] read[j]).id != read[i].id {
            assert forall|j: int| 0 <= j < i implies (#[trigger] before[j]).id != before[i].id by {
                assert(before[j] == read[j]);
            }
            let m = choose|m: int| 0 <= m < a.len() && a[m] == before[i];
            assert(b[m] == read[i]);
        }
    } else if has_id(a, last.id) {
        let k = choose|k: int| 0 <= k < a.len() && (#[trigger] a[k]).id == last.id;
        assert(b[k].id == read[i].id);
        let m = choose|m: int| 0 <= m < before.len() && before[m] == a[k];
        assert(read[m].id == read[i].id);
    } else {
        assert(b[b.len() - 1] == read[i]);
    }
}

proof fn lemma_distinct_from(read: Seq<StationView>)
    ensures
        forall|k: int| 0 <= k < distinct(read).len() ==> read.contains(#[trigger] distinct(read)[k]),
    decreases read.len(),
{
    if read.len() > 0 {
        let before = read.drop_last();
        let (a, b) = (distinct(before), distinct(read));
        lemma_distinct_from(before);
        assert forall|k: int| 0 <= k < b.len() implies read.contains(#[trigger] b[k]) by {
            if k < a.len() {
                assert(b[k] == a[k]);
                let m = choose|m: int| 0 <= m < before.len() && before[m] == a[k];
                assert(read[m] == b[k]);
            } else {
                assert(read[read.len() - 1] == b[k]);
            }
        }
    }
}

/// The answer to a station search holds the first stations that were read, of each reference
/// one.
pub proof fn law_answer_holds_the_first_stations(items: Seq<XmlItem>, limit: nat)
    requires
        StationParserView::blank().run(items) is Ok,
    ensures
        ({
            let kept = distinct(StationParserView::blank().run(items)->Ok_0.found);
            &&& stations_of(items, limit as int) is Ok
            &&& stations_of(items, limit as int)->Ok_0.len() == if kept.len() <= limit {
                kept.len()
            } else {
                limit
            }
            &&& forall|i: int|
                0 <= i < stations_of(items, limit as int)->Ok_0.len() ==> #[trigger] stations_of(
                    items,
                    limit as int,
                )->Ok_0[i] == kept[i]
        }),
{
}

} // verus!
