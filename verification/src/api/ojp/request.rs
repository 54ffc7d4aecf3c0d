//! The questions to the journey planner, as documents.

use vstd::prelude::*;

use crate::api::ojp::tags;
use crate::models::TransportMode;
use crate::text;
use crate::time;
use crate::time::FixedDateTime;
use crate::xml;

verus! {

/// The start tag of every question.
pub open spec fn ojp_root() -> Seq<char> {
    "<"@ + "OJP"@ + xml::attribute("xmlns"@, "http://www.vdv.de/ojp"@) + xml::attribute(
        "version"@,
        "2.0"@,
    ) + xml::attribute("xmlns:siri"@, "http://www.siri.org.uk/siri"@) + ">"@
}

/// How a question of a kind begins.
pub open spec fn opening(kind: Seq<char>, timestamp: Seq<char>) -> Seq<char> {
    ojp_root() + xml::start_tag("OJPRequest"@) + xml::start_tag("siri:ServiceRequest"@)
        + xml::text_element("siri:RequestTimestamp"@, timestamp) + xml::text_element(
        "siri:RequestorRef"@,
        "sbb_mcp_prod"@,
    ) + xml::start_tag(kind) + xml::text_element("siri:RequestTimestamp"@, timestamp)
}

/// How a question of a kind ends.
pub open spec fn closing(kind: Seq<char>) -> Seq<char> {
    xml::end_tag(kind) + xml::end_tag("siri:ServiceRequest"@) + xml::end_tag("OJPRequest"@)
        + xml::end_tag("OJP"@)
}

fn write_opening(kind: &str, timestamp: &str) -> (r: quick_xml::Writer<Vec<u8>>)
    ensures
        xml::written(r) == opening(kind@, timestamp@),
{
    let mut w = xml::new_writer();
    xml::write_start_with(
        &mut w,
        "OJP",
        ("xmlns", "http://www.vdv.de/ojp"),
        ("version", "2.0"),
        ("xmlns:siri", "http://www.siri.org.uk/siri"),
    );
    assert(xml::written(w) =~= ojp_root());
    xml::write_start(&mut w, "OJPRequest");
    xml::write_start(&mut w, "siri:ServiceRequest");
    xml::write_text_element(&mut w, "siri:RequestTimestamp", timestamp);
    xml::write_text_element(&mut w, "siri:RequestorRef", "sbb_mcp_prod");
    xml::write_start(&mut w, kind);
    xml::write_text_element(&mut w, "siri:RequestTimestamp", timestamp);
    w
}

fn write_closing(writer: quick_xml::Writer<Vec<u8>>, kind: &str) -> (r: String)
    ensures
        r@ == xml::written(writer) + closing(kind@),
{
    let ghost before = xml::written(writer);
    let mut w = writer;
    xml::write_end(&mut w, kind);
    xml::write_end(&mut w, "siri:ServiceRequest");
    xml::write_end(&mut w, "OJPRequest");
    xml::write_end(&mut w, "OJP");
    assert(xml::written(w) =~= before + closing(kind@));
    xml::finish_document(w)
}

/// A place in a question: by its reference, if it has one, and by its name.
pub open spec fn place_ref(name: Seq<char>, stop_ref: Seq<char>) -> Seq<char> {
    let reference = if tags::stop_ref(stop_ref) {
        xml::text_element("StopPlaceRef"@, stop_ref)
    } else {
        Seq::empty()
    };
    xml::start_tag("PlaceRef"@) + reference + xml::start_tag("Name"@) + xml::text_element(
        "Text"@,
        name,
    ) + xml::end_tag("Name"@) + xml::end_tag("PlaceRef"@)
}

fn write_place_ref(writer: &mut quick_xml::Writer<Vec<u8>>, name: &str, stop_ref: &str)
    ensures
        xml::written(*final(writer)) == xml::written(*old(writer)) + place_ref(name@, stop_ref@),
{
    let ghost before = xml::written(*writer);
    xml::write_start(writer, "PlaceRef");
    if tags::looks_like_stop_ref(stop_ref) {
        xml::write_text_element(writer, "StopPlaceRef", stop_ref);
    }
    xml::write_start(writer, "Name");
    xml::write_text_element(writer, "Text", name);
    xml::write_end(writer, "Name");
    xml::write_end(writer, "PlaceRef");
    assert(xml::written(*writer) =~= before + place_ref(name@, stop_ref@));
}

/// The question for stations of a name.
pub open spec fn location_request(query: Seq<char>, limit: nat, timestamp: Seq<char>) -> Seq<char> {
    opening("OJPLocationInformationRequest"@, timestamp) + xml::start_tag("InitialInput"@)
        + xml::text_element("Name"@, query) + xml::end_tag("InitialInput"@) + xml::start_tag(
        "Restrictions"@,
    ) + xml::text_element("Type"@, "stop"@) + xml::text_element(
        "NumberOfResults"@,
        text::decimal(limit),
    ) + xml::text_element("IncludePtModes"@, "true"@) + xml::end_tag("Restrictions"@) + closing(
        "OJPLocationInformationRequest"@,
    )
}

/// The question for stations of a name, as of a timestamp.
pub fn write_location_request(query: &str, limit: usize, timestamp: &str) -> (r: String)
    ensures
        r@ == location_request(query@, limit as nat, timestamp@),
{
    let mut w = write_opening("OJPLocationInformationRequest", timestamp);
    xml::write_start(&mut w, "InitialInput");
    xml::write_text_element(&mut w, "Name", query);
    xml::write_end(&mut w, "InitialInput");
    xml::write_start(&mut w, "Restrictions");
    xml::write_text_element(&mut w, "Type", "stop");
    let count = text::write_decimal(limit as u64);
    xml::write_text_element(&mut w, "NumberOfResults", count.as_str());
    xml::write_text_element(&mut w, "IncludePtModes", "true");
    xml::write_end(&mut w, "Restrictions");
    write_closing(w, "OJPLocationInformationRequest")
}

/// The question for stations of a name, as of now.
pub fn build_location_information_request(query: &str, limit: usize) -> (r: String)
    ensures
        exists|now: FixedDateTime|
            time::zurich_reading(now) && r@ == location_request(
                query@,
                limit as nat,
                #[trigger] time::rfc3339_text(now),
            ),
{
    let now = time::now_fixed();
    let timestamp = time::write_rfc3339(now);
    write_location_request(query, limit, timestamp.as_str())
}

/// The journey planner's word for a mode.
pub open spec fn ojp_mode(mode: TransportMode) -> Seq<char> {
    match mode {
        TransportMode::Ship => "water"@,
        other => other.name(),
    }
}

/// The elements for modes.
pub open spec fn mode_elements(modes: Seq<TransportMode>) -> Seq<char>
    decreases modes.len(),
{
    if modes.len() == 0 {
        Seq::empty()
    } else {
        mode_elements(modes.drop_last()) + xml::text_element("PtMode"@, ojp_mode(modes.last()))
    }
}

/// The restriction to modes; without any, or with all of them, there is none.
pub open spec fn mode_filter(modes: Seq<TransportMode>) -> Seq<char> {
    if modes.len() == 0 || modes.contains(TransportMode::All) {
        Seq::empty()
    } else {
        xml::start_tag("ModeAndModeOfOperationFilter"@) + xml::text_element("Exclude"@, "false"@)
            + mode_elements(modes) + xml::end_tag("ModeAndModeOfOperationFilter"@)
    }
}

fn write_mode_filter(writer: &mut quick_xml::Writer<Vec<u8>>, modes: &[TransportMode])
    ensures
        xml::written(*final(writer)) == xml::written(*old(writer)) + mode_filter(modes@),
{
    let ghost before = xml::written(*writer);
    let mut i: usize = 0;
    while i < modes.len()
        invariant
            before == xml::written(*writer),
            i <= modes@.len(),
            forall|k: int| 0 <= k < i ==> modes@[k] != TransportMode::All,
        decreases modes@.len() - i,
    {
        if modes[i] == TransportMode::All {
            assert(modes@.contains(TransportMode::All));
            assert(before + mode_filter(modes@) =~= before);
            return;
        }
        i += 1;
    }
    if modes.len() == 0 {
        assert(before + mode_filter(modes@) =~= before);
        return;
    }
    assert(!modes@.contains(TransportMode::All));
    xml::write_start(writer, "ModeAndModeOfOperationFilter");
    xml::write_text_element(writer, "Exclude", "false");
    let ghost head = xml::written(*writer);
    let mut j: usize = 0;
    assert(head + mode_elements(modes@.take(0)) =~= head);
    while j < modes.len()
        invariant
            j <= modes@.len(),
            forall|k: int| 0 <= k < modes@.len() ==> modes@[k] != TransportMode::All,
            xml::written(*writer) == head + mode_elements(modes@.take(j as int)),
        decreases modes@.len() - j,
    {
        let mode = modes[j];
        let word = if mode == TransportMode::Ship {
            "water"
        } else {
            mode.as_str()
        };
        xml::write_text_element(writer, "PtMode", word);
        assert(modes@.take(j + 1).drop_last() =~= modes@.take(j as int));
        assert(head + mode_elements(modes@.take(j as int)) + xml::text_element("PtMode"@, word@)
            =~= head + mode_elements(modes@.take(j + 1)));
        j += 1;
    }
    assert(modes@.take(j as int) =~= modes@);
    xml::write_end(writer, "ModeAndModeOfOperationFilter");
    assert(xml::written(*writer) =~= before + mode_filter(modes@));
}

/// A number of results from one to five.
pub open spec fn trip_count(max_results: nat) -> nat {
    if max_results < 1 {
        1
    } else if max_results > 5 {
        5
    } else {
        max_results
    }
}

/// The question for trips.
pub open spec fn trip_request(
    from: (Seq<char>, Seq<char>),
    to: (Seq<char>, Seq<char>),
    departure: Seq<char>,
    modes: Seq<TransportMode>,
    max_results: nat,
    timestamp: Seq<char>,
) -> Seq<char> {
    opening("OJPTripRequest"@, timestamp) + xml::start_tag("Origin"@) + place_ref(from.0, from.1)
        + xml::text_element("DepArrTime"@, departure) + xml::end_tag("Origin"@) + xml::start_tag(
        "Destination"@,
    ) + place_ref(to.0, to.1) + xml::end_tag("Destination"@) + xml::start_tag("Params"@)
        + xml::text_element("NumberOfResults"@, text::decimal(trip_count(max_results)))
        + xml::text_element("UseRealtimeData"@, "full"@) + xml::text_element(
        "IncludeIntermediateStops"@,
        "true"@,
    ) + xml::text_element("IncludePreviousCalls"@, "true"@) + xml::text_element(
        "IncludeOnwardCalls"@,
        "true"@,
    ) + mode_filter(modes) + xml::end_tag("Params"@) + closing("OJPTripRequest"@)
}

/// The question for trips, as of a timestamp. Each end is given by its name and its
/// reference.
pub fn write_trip_request(
    from: (&str, &str),
    to: (&str, &str),
    departure: FixedDateTime,
    modes: &[TransportMode],
    max_results: usize,
    timestamp: &str,
) -> (r: String)
    ensures
        r@ == trip_request(
            (from.0@, from.1@),
            (to.0@, to.1@),
            time::rfc3339_text(departure),
            modes@,
            max_results as nat,
            timestamp@,
        ),
{
    let departure_time = time::write_rfc3339(departure);
    let mut w = write_opening("OJPTripRequest", timestamp);
    xml::write_start(&mut w, "Origin");
    write_place_ref(&mut w, from.0, from.1);
    xml::write_text_element(&mut w, "DepArrTime", departure_time.as_str());
    xml::write_end(&mut w, "Origin");
    xml::write_start(&mut w, "Destination");
    write_place_ref(&mut w, to.0, to.1);
    xml::write_end(&mut w, "Destination");
    xml::write_start(&mut w, "Params");
    let count: u64 = if max_results < 1 {
        1
    } else if max_results > 5 {
        5
    } else {
        max_results as u64
    };
    let number = text::write_decimal(count);
    xml::write_text_element(&mut w, "NumberOfResults", number.as_str());
    xml::write_text_element(&mut w, "UseRealtimeData", "full");
    xml::write_text_element(&mut w, "IncludeIntermediateStops", "true");
    xml::write_text_element(&mut w, "IncludePreviousCalls", "true");
    xml::write_text_element(&mut w, "IncludeOnwardCalls", "true");
    write_mode_filter(&mut w, modes);
    xml::write_end(&mut w, "Params");
    write_closing(w, "OJPTripRequest")
}

/// The question for trips, as of now.
pub fn build_trip_request(
    from_station_name: &str,
    from_station_ref: &str,
    to_station_name: &str,
    to_station_ref: &str,
    datetime: FixedDateTime,
    modes: &[TransportMode],
    max_results: usize,
) -> (r: String)
    ensures
        exists|now: FixedDateTime|
            time::zurich_reading(now) && r@ == trip_request(
                (from_station_name@, from_station_ref@),
                (to_station_name@, to_station_ref@),
                time::rfc3339_text(datetime),
                modes@,
                max_results as nat,
                #[trigger] time::rfc3339_text(now),
            ),
{
    let now = time::now_fixed();
    let timestamp = time::write_rfc3339(now);
    write_trip_request(
        (from_station_name, from_station_ref),
        (to_station_name, to_station_ref),
        datetime,
        modes,
        max_results,
        timestamp.as_str(),
    )
}

/// The question for departures.
pub open spec fn stop_event_request(station_id: Seq<char>, limit: nat, timestamp: Seq<char>) -> Seq<
    char,
> {
    opening("OJPStopEventRequest"@, timestamp) + xml::start_tag("Location"@) + place_ref(
        station_id,
        station_id,
    ) + xml::text_element("DepArrTime"@, timestamp) + xml::end_tag("Location"@) + xml::start_tag(
        "Params"@,
    ) + xml::text_element("NumberOfResults"@, text::decimal(limit)) + xml::text_element(
        "StopEventType"@,
        "departure"@,
    ) + xml::text_element("IncludePreviousCalls"@, "false"@) + xml::text_element(
        "IncludeOnwardCalls"@,
        "false"@,
    ) + xml::text_element("UseRealtimeData"@, "full"@) + xml::end_tag("Params"@) + closing(
        "OJPStopEventRequest"@,
    )
}

/// The question for departures, as of a timestamp.
pub fn write_stop_event_request(station_id: &str, limit: usize, timestamp: &str) -> (r: String)
    ensures
        r@ == stop_event_request(station_id@, limit as nat, timestamp@),
{
    let mut w = write_opening("OJPStopEventRequest", timestamp);
    xml::write_start(&mut w, "Location");
    write_place_ref(&mut w, station_id, station_id);
    xml::write_text_element(&mut w, "DepArrTime", timestamp);
    xml::write_end(&mut w, "Location");
    xml::write_start(&mut w, "Params");
    let count = text::write_decimal(limit as u64);
    xml::write_text_element(&mut w, "NumberOfResults", count.as_str());
    xml::write_text_element(&mut w, "StopEventType", "departure");
    xml::write_text_element(&mut w, "IncludePreviousCalls", "false");
    xml::write_text_element(&mut w, "IncludeOnwardCalls", "false");
    xml::write_text_element(&mut w, "UseRealtimeData", "full");
    xml::write_end(&mut w, "Params");
    write_closing(w, "OJPStopEventRequest")
}

/// The question for departures, as of now. The time window does not restrict it.
pub fn build_stop_event_request(station_id: &str, limit: usize, window_minutes: i64) -> (r: String)
    ensures
        exists|now: FixedDateTime|
            time::zurich_reading(now) && r@ == stop_event_request(
                station_id@,
                limit as nat,
                #[trigger] time::rfc3339_text(now),
            ),
{
    let now = time::now_fixed();
    let timestamp = time::write_rfc3339(now);
    write_stop_event_request(station_id, limit, timestamp.as_str())
}

// ---------------------------------------------------------------------------
// What the questions tell
// ---------------------------------------------------------------------------

proof fn lemma_stands_within(a: Seq<char>, p: Seq<char>, b: Seq<char>)
    ensures
        text::contains(a + p + b, p),
{
    let s = a + p + b;
    assert(s.subrange(a.len() as int, a.len() as int + p.len()) =~= p);
    assert(text::occurs_at(s, p, a.len() as int));
}

#[verifier::opaque]
spec fn within(s: Seq<char>, p: Seq<char>) -> bool {
    text::contains(s, p)
}

#[verifier::opaque]
spec fn at_start(s: Seq<char>, p: Seq<char>) -> bool {
    text::starts(s, p)
}

proof fn lemma_goes_on(s: Seq<char>, p: Seq<char>, t: Seq<char>)
    ensures
        within(s, p) ==> within(s + t, p),
        at_start(s, p) ==> at_start(s + t, p),
{
    reveal(within);
    reveal(at_start);
    if text::contains(s, p) {
        let i = choose|i: int| text::occurs_at(s, p, i);
        assert((s + t).subrange(i, i + p.len()) =~= s.subrange(i, i + p.len()));
        assert(text::occurs_at(s + t, p, i));
    }
    if text::starts(s, p) {
        assert((s + t).subrange(0, p.len() as int) =~= s.subrange(0, p.len() as int));
    }
}

proof fn lemma_ends_with(a: Seq<char>, p: Seq<char>)
    ensures
        within(a + p, p),
        text::ends(a + p, p),
        at_start(p, p),
{
    reveal(within);
    reveal(at_start);
    let s = a + p;
    assert(s.subrange(a.len() as int, a.len() as int + p.len()) =~= p);
    assert(text::occurs_at(s, p, a.len() as int));
    assert(p.subrange(0, p.len() as int) =~= p);
}

/// Every question begins with the root of the protocol and tells when it is asked; all that
/// was opened is closed at its end, in reverse order.
pub proof fn law_questions_are_framed(kind: Seq<char>, timestamp: Seq<char>)
    ensures
        text::starts(opening(kind, timestamp), "<OJP xmlns=\""@),
        text::contains(
            opening(kind, timestamp),
            "<siri:RequestTimestamp>"@ + xml::escaped(timestamp) + "</siri:RequestTimestamp>"@,
        ),
        text::ends(
            opening(kind, timestamp),
            "<"@ + kind + ">"@ + "<siri:RequestTimestamp>"@ + xml::escaped(timestamp)
                + "</siri:RequestTimestamp>"@,
        ),
        closing(kind) == "</"@ + kind + "></siri:ServiceRequest></OJPRequest></OJP>"@,
{
    xml::law_element_stands_between_its_tags("siri:RequestTimestamp"@, timestamp);
    xml::law_element_stands_between_its_tags(kind, timestamp);
    xml::law_element_stands_between_its_tags("siri:ServiceRequest"@, timestamp);
    xml::law_element_stands_between_its_tags("OJPRequest"@, timestamp);
    xml::law_element_stands_between_its_tags("OJP"@, timestamp);
    xml::law_element_stands_between_its_tags("xmlns"@, "http://www.vdv.de/ojp"@);
    reveal_strlit("<OJP xmlns=\"");
    reveal_strlit("OJP");
    reveal_strlit("xmlns");
    reveal_strlit("<");
    reveal_strlit("</");
    reveal_strlit(">");
    reveal_strlit("siri:RequestTimestamp");
    reveal_strlit("<siri:RequestTimestamp>");
    reveal_strlit("</siri:RequestTimestamp>");
    reveal_strlit("siri:ServiceRequest");
    reveal_strlit("OJPRequest");
    reveal_strlit("></siri:ServiceRequest></OJPRequest></OJP>");
    let o = opening(kind, timestamp);
    assert(o.subrange(0, 12) =~= "<OJP xmlns=\""@);
    assert("<siri:RequestTimestamp>"@ =~= seq!['<'] + "siri:RequestTimestamp"@ + seq!['>']);
    assert("</siri:RequestTimestamp>"@ =~= seq!['<', '/'] + "siri:RequestTimestamp"@ + seq!['>']);
    let told = "<siri:RequestTimestamp>"@ + xml::escaped(timestamp) + "</siri:RequestTimestamp>"@;
    assert(xml::text_element("siri:RequestTimestamp"@, timestamp) =~= told);
    let head = ojp_root() + xml::start_tag("OJPRequest"@) + xml::start_tag("siri:ServiceRequest"@)
        + told + xml::text_element("siri:RequestorRef"@, "sbb_mcp_prod"@);
    let tail = "<"@ + kind + ">"@ + "<siri:RequestTimestamp>"@ + xml::escaped(timestamp)
        + "</siri:RequestTimestamp>"@;
    assert(o =~= head + tail);
    assert(o.subrange(o.len() - tail.len(), o.len() as int) =~= tail);
    lemma_stands_within(
        head + xml::start_tag(kind),
        told,
        Seq::empty(),
    );
    assert(o =~= head + xml::start_tag(kind) + told + Seq::empty());
    assert(closing(kind) =~= "</"@ + kind + "></siri:ServiceRequest></OJPRequest></OJP>"@) by {
        assert("></siri:ServiceRequest></OJPRequest></OJP>"@ =~= seq!['>'] + (seq!['<', '/']
            + "siri:ServiceRequest"@ + seq!['>']) + (seq!['<', '/'] + "OJPRequest"@ + seq!['>'])
            + (seq!['<', '/'] + "OJP"@ + seq!['>']));
    }
}

/// A place is told by its name, and by its reference exactly if that is one of a stop.
pub proof fn law_places_are_told(name: Seq<char>, stop_ref: Seq<char>)
    ensures
        tags::stop_ref(stop_ref) ==> place_ref(name, stop_ref) == "<PlaceRef><StopPlaceRef>"@
            + xml::escaped(stop_ref) + "</StopPlaceRef><Name><Text>"@ + xml::escaped(name)
            + "</Text></Name></PlaceRef>"@,
        !tags::stop_ref(stop_ref) ==> place_ref(name, stop_ref) == "<PlaceRef><Name><Text>"@
            + xml::escaped(name) + "</Text></Name></PlaceRef>"@,
{
    xml::law_element_stands_between_its_tags("StopPlaceRef"@, stop_ref);
    xml::law_element_stands_between_its_tags("Text"@, name);
    xml::law_element_stands_between_its_tags("Name"@, name);
    xml::law_element_stands_between_its_tags("PlaceRef"@, name);
    reveal_strlit("StopPlaceRef");
    reveal_strlit("Text");
    reveal_strlit("Name");
    reveal_strlit("PlaceRef");
    reveal_strlit("<PlaceRef><StopPlaceRef>");
    reveal_strlit("</StopPlaceRef><Name><Text>");
    reveal_strlit("</Text></Name></PlaceRef>");
    reveal_strlit("<PlaceRef><Name><Text>");
    let p = seq!['<'] + "PlaceRef"@ + seq!['>'];
    let n = seq!['<'] + "Name"@ + seq!['>'];
    let t = seq!['<'] + "Text"@ + seq!['>'];
    let s = seq!['<'] + "StopPlaceRef"@ + seq!['>'];
    let end_s = seq!['<', '/'] + "StopPlaceRef"@ + seq!['>'];
    let end_t = seq!['<', '/'] + "Text"@ + seq!['>'];
    let end_n = seq!['<', '/'] + "Name"@ + seq!['>'];
    let end_p = seq!['<', '/'] + "PlaceRef"@ + seq!['>'];
    assert("<PlaceRef><StopPlaceRef>"@ =~= p + s);
    assert("</StopPlaceRef><Name><Text>"@ =~= end_s + n + t);
    assert("</Text></Name></PlaceRef>"@ =~= end_t + end_n + end_p);
    assert("<PlaceRef><Name><Text>"@ =~= p + n + t);
    if tags::stop_ref(stop_ref) {
        assert(place_ref(name, stop_ref) =~= p + s + xml::escaped(stop_ref) + (end_s + n + t)
            + xml::escaped(name) + (end_t + end_n + end_p));
    } else {
        assert(place_ref(name, stop_ref) =~= p + n + t + xml::escaped(name) + (end_t + end_n
            + end_p));
    }
}

/// Ships go by the word "water" in a question, and every other mode by its own name.
pub proof fn law_words_for_modes_in_questions(mode: TransportMode)
    ensures
        mode == TransportMode::Ship <==> ojp_mode(mode) == seq!['w', 'a', 't', 'e', 'r'],
        mode != TransportMode::Ship ==> ojp_mode(mode) == mode.name(),
{
    reveal_strlit("water");
    assert("water"@ =~= seq!['w', 'a', 't', 'e', 'r']);
    assert("water"@.len() == 5 && "water"@[0] == 'w');
    if mode != TransportMode::Ship && mode.name() == "water"@ {
        reveal_strlit("rail");
        reveal_strlit("bus");
        reveal_strlit("tram");
        reveal_strlit("cableway");
        reveal_strlit("funicular");
        reveal_strlit("all");
        assert("rail"@.len() == 4 && "bus"@.len() == 3 && "tram"@.len() == 4);
        assert("cableway"@.len() == 8 && "funicular"@.len() == 9 && "all"@.len() == 3);
    }
}

/// Every mode that is asked for is told in a question; without any, and with all of them,
/// none is.
pub proof fn law_modes_restrict_a_question(modes: Seq<TransportMode>, mode: TransportMode)
    ensures
        mode_filter(Seq::empty()).len() == 0,
        modes.contains(TransportMode::All) ==> mode_filter(modes).len() == 0,
        !modes.contains(TransportMode::All) && mode != TransportMode::All ==> text::contains(
            mode_filter(modes.push(mode)),
            "<Exclude>false</Exclude>"@ + mode_elements(modes) + "<PtMode>"@ + xml::escaped(
                ojp_mode(mode),
            ) + "</PtMode>"@,
        ),
        mode_elements(Seq::empty()).len() == 0,
        mode_elements(modes.push(mode)) == mode_elements(modes) + "<PtMode>"@ + xml::escaped(
            ojp_mode(mode),
        ) + "</PtMode>"@,
{
    xml::law_element_stands_between_its_tags("PtMode"@, ojp_mode(mode));
    reveal_strlit("PtMode");
    reveal_strlit("<PtMode>");
    reveal_strlit("</PtMode>");
    let s = seq!['<'] + "PtMode"@ + seq!['>'];
    let e = seq!['<', '/'] + "PtMode"@ + seq!['>'];
    assert("<PtMode>"@ =~= s);
    assert("</PtMode>"@ =~= e);
    let more = modes.push(mode);
    assert(more.drop_last() =~= modes);
    assert(mode_elements(more) =~= mode_elements(modes) + "<PtMode>"@ + xml::escaped(ojp_mode(mode))
        + "</PtMode>"@);
    if !modes.contains(TransportMode::All) && mode != TransportMode::All {
        assert(!more.contains(TransportMode::All)) by {
            if more.contains(TransportMode::All) {
                let k = choose|k: int| 0 <= k < more.len() && more[k] == TransportMode::All;
                assert(modes[k] == TransportMode::All);
            }
        }
        xml::law_element_stands_between_its_tags("Exclude"@, "false"@);
        reveal_strlit("Exclude");
        reveal_strlit("false");
        reveal_strlit("<Exclude>false</Exclude>");
        lemma_plain(
            "false"@,
        );
        assert(xml::text_element("Exclude"@, "false"@) =~= "<Exclude>false</Exclude>"@);
        let p = "<Exclude>false</Exclude>"@ + mode_elements(modes) + "<PtMode>"@ + xml::escaped(
            ojp_mode(mode),
        ) + "</PtMode>"@;
        let a = xml::start_tag("ModeAndModeOfOperationFilter"@);
        let b = xml::end_tag("ModeAndModeOfOperationFilter"@);
        assert(mode_filter(more) =~= a + p + b);
        lemma_stands_within(a, p, b);
    }
}

/// Text without characters that XML gives a meaning to is written as it is.
proof fn lemma_plain(s: Seq<char>)
    requires
        forall|i: int|
            0 <= i < s.len() ==> (#[trigger] s[i]) != '<' && s[i] != '>' && s[i] != '&' && s[i]
                != '\'' && s[i] != '"',
    ensures
        xml::escaped(s) == s,
    decreases s.len(),
{
    if s.len() > 0 {
        let t = s.drop_last();
        assert forall|i: int| 0 <= i < t.len() implies (#[trigger] t[i]) != '<' && t[i] != '>'
            && t[i] != '&' && t[i] != '\'' && t[i] != '"' by {
            assert(t[i] == s[i]);
        }
        lemma_plain(t);
        xml::law_characters_are_escaped(t, s.last());
        assert(t.push(s.last()) =~= s);
    }
}

/// From one to five trips are asked for.
pub proof fn law_trips_asked_for(n: nat)
    ensures
        1 <= n <= 5 ==> trip_count(n) == n,
        n < 1 ==> trip_count(n) == 1,
        n > 5 ==> trip_count(n) == 5,
{
}

/// A question for stations tells the name and how many are wanted, and asks for stops.
pub proof fn law_stations_are_asked_for(query: Seq<char>, limit: nat, timestamp: Seq<char>)
    ensures
        ({
            let q = location_request(query, limit, timestamp);
            &&& text::starts(q, opening("OJPLocationInformationRequest"@, timestamp))
            &&& text::contains(
                q,
                xml::start_tag("InitialInput"@) + xml::text_element("Name"@, query) + xml::end_tag(
                    "InitialInput"@,
                ),
            )
            &&& text::contains(q, xml::text_element("Type"@, "stop"@))
            &&& text::contains(q, xml::text_element("NumberOfResults"@, text::decimal(limit)))
            &&& text::contains(q, xml::text_element("IncludePtModes"@, "true"@))
            &&& text::ends(q, closing("OJPLocationInformationRequest"@))
        }),
{
    reveal(within);
    reveal(at_start);
    lemma_stations_question(
        opening("OJPLocationInformationRequest"@, timestamp),
        xml::start_tag("InitialInput"@),
        xml::text_element("Name"@, query),
        xml::end_tag("InitialInput"@),
        xml::start_tag("Restrictions"@),
        xml::text_element("Type"@, "stop"@),
        xml::text_element("NumberOfResults"@, text::decimal(limit)),
        xml::text_element("IncludePtModes"@, "true"@),
        xml::end_tag("Restrictions"@),
        closing("OJPLocationInformationRequest"@),
    );
}

proof fn lemma_stations_question(
    o: Seq<char>,
    i: Seq<char>,
    name: Seq<char>,
    j: Seq<char>,
    r: Seq<char>,
    t: Seq<char>,
    n: Seq<char>,
    m: Seq<char>,
    e: Seq<char>,
    c: Seq<char>,
)
    ensures
        ({
            let q = o + i + name + j + r + t + n + m + e + c;
            &&& at_start(q, o)
            &&& within(q, i + name + j)
            &&& within(q, t)
            &&& within(q, n)
            &&& within(q, m)
            &&& text::ends(q, c)
        }),
{
    let p = i + name + j;
    let a = o + i + name + j;
    assert(a =~= o + p);
    lemma_ends_with(Seq::empty(), o);
    lemma_ends_with(o, p);
    lemma_goes_on(o, o, p);
    lemma_goes_on(a, o, r);
    lemma_goes_on(a, p, r);
    let a = a + r;
    lemma_goes_on(a, o, t);
    lemma_goes_on(a, p, t);
    lemma_ends_with(a, t);
    let a = a + t;
    lemma_goes_on(a, o, n);
    lemma_goes_on(a, p, n);
    lemma_goes_on(a, t, n);
    lemma_ends_with(a, n);
    let a = a + n;
    lemma_goes_on(a, o, m);
    lemma_goes_on(a, p, m);
    lemma_goes_on(a, t, m);
    lemma_goes_on(a, n, m);
    lemma_ends_with(a, m);
    let a = a + m;
    lemma_goes_on(a, o, e);
    lemma_goes_on(a, p, e);
    lemma_goes_on(a, t, e);
    lemma_goes_on(a, n, e);
    lemma_goes_on(a, m, e);
    let a = a + e;
    lemma_goes_on(a, o, c);
    lemma_goes_on(a, p, c);
    lemma_goes_on(a, t, c);
    lemma_goes_on(a, n, c);
    lemma_goes_on(a, m, c);
    lemma_ends_with(a, c);
}

/// A question for trips tells the origin with the time of departure, then the destination,
/// how many are wanted, and what is wanted of them.
pub proof fn law_trips_are_asked_for(
    from: (Seq<char>, Seq<char>),
    to: (Seq<char>, Seq<char>),
    departure: Seq<char>,
    modes: Seq<TransportMode>,
    max_results: nat,
    timestamp: Seq<char>,
)
    ensures
        ({
            let q = trip_request(from, to, departure, modes, max_results, timestamp);
            let (from_name, from_ref) = from;
            let (to_name, to_ref) = to;
            &&& text::starts(
                q,
                opening("OJPTripRequest"@, timestamp) + xml::start_tag("Origin"@) + place_ref(
                    from_name,
                    from_ref,
                ) + xml::text_element("DepArrTime"@, departure) + xml::end_tag("Origin"@),
            )
            &&& text::contains(
                q,
                xml::end_tag("Origin"@) + xml::start_tag("Destination"@) + place_ref(
                    to_name,
                    to_ref,
                ) + xml::end_tag("Destination"@),
            )
            &&& text::contains(
                q,
                xml::text_element("NumberOfResults"@, text::decimal(trip_count(max_results))),
            )
            &&& text::contains(q, xml::text_element("UseRealtimeData"@, "full"@))
            &&& text::contains(q, xml::text_element("IncludeIntermediateStops"@, "true"@))
            &&& text::contains(q, xml::text_element("IncludePreviousCalls"@, "true"@))
            &&& text::contains(q, xml::text_element("IncludeOnwardCalls"@, "true"@))
            &&& text::ends(
                q,
                mode_filter(modes) + xml::end_tag("Params"@) + closing("OJPTripRequest"@),
            )
        }),
{
    reveal(within);
    reveal(at_start);
    lemma_trips_question(
        opening("OJPTripRequest"@, timestamp),
        xml::start_tag("Origin"@),
        place_ref(from.0, from.1),
        xml::text_element("DepArrTime"@, departure),
        xml::end_tag("Origin"@),
        xml::start_tag("Destination"@),
        place_ref(to.0, to.1),
        xml::end_tag("Destination"@),
        xml::start_tag("Params"@),
        xml::text_element("NumberOfResults"@, text::decimal(trip_count(max_results))),
        xml::text_element("UseRealtimeData"@, "full"@),
        xml::text_element("IncludeIntermediateStops"@, "true"@),
        xml::text_element("IncludePreviousCalls"@, "true"@),
        xml::text_element("IncludeOnwardCalls"@, "true"@),
        mode_filter(modes),
        xml::end_tag("Params"@),
        closing("OJPTripRequest"@),
    );
}

proof fn lemma_trips_question(
    o: Seq<char>,
    so: Seq<char>,
    f: Seq<char>,
    d: Seq<char>,
    eo: Seq<char>,
    sd: Seq<char>,
    t: Seq<char>,
    ed: Seq<char>,
    p: Seq<char>,
    n: Seq<char>,
    u: Seq<char>,
    i: Seq<char>,
    v: Seq<char>,
    w: Seq<char>,
    x: Seq<char>,
    e: Seq<char>,
    c: Seq<char>,
)
    ensures
        ({
            let q = o + so + f + d + eo + sd + t + ed + p + n + u + i + v + w + x + e + c;
            &&& at_start(q, o + so + f + d + eo)
            &&& within(q, eo + sd + t + ed)
            &&& within(q, n)
            &&& within(q, u)
            &&& within(q, i)
            &&& within(q, v)
            &&& within(q, w)
            &&& text::ends(q, x + e + c)
        }),
{
    let first = o + so + f + d + eo;
    let next_to = eo + sd + t + ed;
    let a = o + so + f + d + eo + sd + t + ed;
    assert(a =~= o + so + f + d + next_to);
    lemma_ends_with(o + so + f + d, next_to);
    lemma_ends_with(Seq::empty(), first);
    lemma_goes_on(first, first, sd);
    lemma_goes_on(first + sd, first, t);
    lemma_goes_on(first + sd + t, first, ed);
    lemma_trips_question_goes_on(a, first, next_to, p, n, u, i, v, w, x, e, c);
}

proof fn lemma_trips_question_goes_on(
    begun: Seq<char>,
    first: Seq<char>,
    next_to: Seq<char>,
    p: Seq<char>,
    n: Seq<char>,
    u: Seq<char>,
    i: Seq<char>,
    v: Seq<char>,
    w: Seq<char>,
    x: Seq<char>,
    e: Seq<char>,
    c: Seq<char>,
)
    requires
        at_start(begun, first),
        within(begun, next_to),
    ensures
        ({
            let q = begun + p + n + u + i + v + w + x + e + c;
            &&& at_start(q, first)
            &&& within(q, next_to)
            &&& within(q, n)
            &&& within(q, u)
            &&& within(q, i)
            &&& within(q, v)
            &&& within(q, w)
            &&& text::ends(q, x + e + c)
        }),
{
    let a = begun;
    lemma_goes_on(a, first, p);
    lemma_goes_on(a, next_to, p);
    let a = a + p;
    lemma_goes_on(a, first, n);
    lemma_goes_on(a, next_to, n);
    lemma_ends_with(a, n);
    let a = a + n;
    lemma_goes_on(a, first, u);
    lemma_goes_on(a, next_to, u);
    lemma_goes_on(a, n, u);
    lemma_ends_with(a, u);
    let a = a + u;
    lemma_goes_on(a, first, i);
    lemma_goes_on(a, next_to, i);
    lemma_goes_on(a, n, i);
    lemma_goes_on(a, u, i);
    lemma_ends_with(a, i);
    let a = a + i;
    lemma_goes_on(a, first, v);
    lemma_goes_on(a, next_to, v);
    lemma_goes_on(a, n, v);
    lemma_goes_on(a, u, v);
    lemma_goes_on(a, i, v);
    lemma_ends_with(a, v);
    let a = a + v;
    lemma_goes_on(a, first, w);
    lemma_goes_on(a, next_to, w);
    lemma_goes_on(a, n, w);
    lemma_goes_on(a, u, w);
    lemma_goes_on(a, i, w);
    lemma_goes_on(a, v, w);
    lemma_ends_with(a, w);
    let a = a + w;
    let last = x + e + c;
    lemma_ends_with(a, last);
    assert(a + x + e + c =~= a + last);
    lemma_goes_on(a, first, last);
    lemma_goes_on(a, next_to, last);
    lemma_goes_on(a, n, last);
    lemma_goes_on(a, u, last);
    lemma_goes_on(a, i, last);
    lemma_goes_on(a, v, last);
    lemma_goes_on(a, w, last);
}

/// A question for departures tells the station and the time, how many are wanted, and that
/// departures without other calls are.
pub proof fn law_departures_are_asked_for(station_id: Seq<char>, limit: nat, timestamp: Seq<char>)
    ensures
        ({
            let q = stop_event_request(station_id, limit, timestamp);
            &&& text::starts(
                q,
                opening("OJPStopEventRequest"@, timestamp) + xml::start_tag("Location"@)
                    + place_ref(station_id, station_id) + xml::text_element("DepArrTime"@, timestamp)
                    + xml::end_tag("Location"@),
            )
            &&& text::contains(q, xml::text_element("NumberOfResults"@, text::decimal(limit)))
            &&& text::contains(q, xml::text_element("StopEventType"@, "departure"@))
            &&& text::contains(q, xml::text_element("IncludePreviousCalls"@, "false"@))
            &&& text::contains(q, xml::text_element("IncludeOnwardCalls"@, "false"@))
            &&& text::contains(q, xml::text_element("UseRealtimeData"@, "full"@))
            &&& text::ends(q, closing("OJPStopEventRequest"@))
        }),
{
    reveal(within);
    reveal(at_start);
    lemma_departures_question(
        opening("OJPStopEventRequest"@, timestamp),
        xml::start_tag("Location"@),
        place_ref(station_id, station_id),
        xml::text_element("DepArrTime"@, timestamp),
        xml::end_tag("Location"@),
        xml::start_tag("Params"@),
        xml::text_element("NumberOfResults"@, text::decimal(limit)),
        xml::text_element("StopEventType"@, "departure"@),
        xml::text_element("IncludePreviousCalls"@, "false"@),
        xml::text_element("IncludeOnwardCalls"@, "false"@),
        xml::text_element("UseRealtimeData"@, "full"@),
        xml::end_tag("Params"@),
        closing("OJPStopEventRequest"@),
    );
}

proof fn lemma_departures_question(
    o: Seq<char>,
    l: Seq<char>,
    f: Seq<char>,
    d: Seq<char>,
    k: Seq<char>,
    p: Seq<char>,
    n: Seq<char>,
    t: Seq<char>,
    v: Seq<char>,
    w: Seq<char>,
    u: Seq<char>,
    e: Seq<char>,
    c: Seq<char>,
)
    ensures
        ({
            let q = o + l + f + d + k + p + n + t + v + w + u + e + c;
            &&& at_start(q, o + l + f + d + k)
            &&& within(q, n)
            &&& within(q, t)
            &&& within(q, v)
            &&& within(q, w)
            &&& within(q, u)
            &&& text::ends(q, c)
        }),
{
    let first = o + l + f + d + k;
    let a = first;
    lemma_ends_with(Seq::empty(), first);
    lemma_goes_on(a, first, p);
    let a = a + p;
    lemma_goes_on(a, first, n);
    lemma_ends_with(a, n);
    let a = a + n;
    lemma_goes_on(a, first, t);
    lemma_goes_on(a, n, t);
    lemma_ends_with(a, t);
    let a = a + t;
    lemma_goes_on(a, first, v);
    lemma_goes_on(a, n, v);
    lemma_goes_on(a, t, v);
    lemma_ends_with(a, v);
    let a = a + v;
    lemma_goes_on(a, first, w);
    lemma_goes_on(a, n, w);
    lemma_goes_on(a, t, w);
    lemma_goes_on(a, v, w);
    lemma_ends_with(a, w);
    let a = a + w;
    lemma_goes_on(a, first, u);
    lemma_goes_on(a, n, u);
    lemma_goes_on(a, t, u);
    lemma_goes_on(a, v, u);
    lemma_goes_on(a, w, u);
    lemma_ends_with(a, u);
    let a = a + u;
    lemma_goes_on(a, first, e);
    lemma_goes_on(a, n, e);
    lemma_goes_on(a, t, e);
    lemma_goes_on(a, v, e);
    lemma_goes_on(a, w, e);
    lemma_goes_on(a, u, e);
    let a = a + e;
    lemma_ends_with(a, c);
    lemma_goes_on(a, first, c);
    lemma_goes_on(a, n, c);
    lemma_goes_on(a, t, c);
    lemma_goes_on(a, v, c);
    lemma_goes_on(a, w, c);
    lemma_goes_on(a, u, c);
}

} // verus!
