//! What single tags and texts of a journey planner document mean.

use vstd::prelude::*;

use crate::coordinate::Coordinate;
use crate::models::{GeoPoint, GeoPointView, StationType, StopCallTime};
use crate::text;
use crate::text::CharSet;
use crate::time;
use crate::time::{FixedDateTime, LocalMapping};

verus! {

// ---------------------------------------------------------------------------
// Tags
// ---------------------------------------------------------------------------

/// The name of a tag without its namespace prefix.
pub open spec fn local_part(name: Seq<char>) -> Seq<char> {
    text::pieces(name, CharSet::Only(':')).last()
}

/// The name of a tag without its namespace prefix.
pub fn local_name(name: &str) -> (r: String)
    ensures
        r@ == local_part(name@),
{
    let mut parts = text::split(name, CharSet::Only(':'));
    let ghost all = parts.deep_view();
    let last = parts.pop();
    match last {
        Some(s) => {
            assert(s@ == all.last());
            s
        },
        None => String::new(),
    }
}

/// The tags that describe a place.
pub open spec fn station_tag(tag: Seq<char>) -> bool {
    ||| tag == "StopPlace"@
    ||| tag == "StopPoint"@
    ||| tag == "Address"@
    ||| tag == "PointOfInterest"@
    ||| tag == "TopographicPlace"@
}

/// Whether a tag describes a place.
pub fn is_station_container(tag: &str) -> (r: bool)
    ensures
        r == station_tag(tag@),
{
    text::same(tag, "StopPlace") || text::same(tag, "StopPoint") || text::same(tag, "Address")
        || text::same(tag, "PointOfInterest") || text::same(tag, "TopographicPlace")
}

/// The kind of place that a tag describes.
pub open spec fn station_kind(tag: Seq<char>) -> StationType {
    if tag == "StopPlace"@ || tag == "StopPoint"@ {
        StationType::Stop
    } else if tag == "Address"@ {
        StationType::Address
    } else if tag == "PointOfInterest"@ || tag == "TopographicPlace"@ {
        StationType::Poi
    } else {
        StationType::Unknown
    }
}

/// The kind of place that a tag describes.
pub fn station_type_from_tag(tag: &str) -> (r: StationType)
    ensures
        r == station_kind(tag@),
{
    if text::same(tag, "StopPlace") || text::same(tag, "StopPoint") {
        StationType::Stop
    } else if text::same(tag, "Address") {
        StationType::Address
    } else if text::same(tag, "PointOfInterest") || text::same(tag, "TopographicPlace") {
        StationType::Poi
    } else {
        StationType::Unknown
    }
}

/// A `Location` within a `Location` or directly within a delivery wraps one result. The
/// innermost open tag is the last of the path.
pub open spec fn result_tag(path: Seq<Seq<char>>, tag: Seq<char>) -> bool {
    &&& tag == "Location"@
    &&& path.len() >= 2
    &&& (path[path.len() - 2] == "Location"@ || path[path.len() - 2]
        == "OJPLocationInformationDelivery"@)
}

/// Whether a tag at the end of a path wraps one search result.
pub fn is_location_result_container(path: &Vec<String>, tag: &str) -> (r: bool)
    ensures
        r == result_tag(path.deep_view(), tag@),
{
    if !text::same(tag, "Location") || path.len() < 2 {
        return false;
    }
    let parent = path[path.len() - 2].as_str();
    text::same(parent, "Location") || text::same(parent, "OJPLocationInformationDelivery")
}

/// The tags that describe a call at a stop.
pub open spec fn stop_call_tag(tag: Seq<char>) -> bool {
    ||| tag == "LegBoard"@
    ||| tag == "LegIntermediate"@
    ||| tag == "LegAlight"@
    ||| tag == "CallAtStop"@
    ||| tag == "IntermediateStop"@
    ||| tag == "OnwardCall"@
    ||| tag == "PreviousCall"@
    ||| tag == "LegStart"@
    ||| tag == "LegEnd"@
}

/// Whether a tag describes a call at a stop.
pub fn is_stop_call_container(tag: &str) -> (r: bool)
    ensures
        r == stop_call_tag(tag@),
{
    text::same(tag, "LegBoard") || text::same(tag, "LegIntermediate") || text::same(
        tag,
        "LegAlight",
    ) || text::same(tag, "CallAtStop") || text::same(tag, "IntermediateStop") || text::same(
        tag,
        "OnwardCall",
    ) || text::same(tag, "PreviousCall") || text::same(tag, "LegStart") || text::same(tag, "LegEnd")
}

/// One of the four innermost tags of a path ends with `name`.
pub open spec fn near(path: Seq<Seq<char>>, name: Seq<char>) -> bool {
    exists|i: int|
        0 <= i < path.len() && path.len() - 4 <= i && text::ends(#[trigger] path[i], name)
}

/// Whether one of the four innermost tags of a path ends with `name`.
pub fn path_contains(path: &Vec<String>, name: &str) -> (r: bool)
    ensures
        r == near(path.deep_view(), name@),
{
    let n: usize = path.len();
    let first: usize = if n > 4 {
        n - 4
    } else {
        0
    };
    let mut i: usize = first;
    while i < n
        invariant
            n == path@.len(),
            first == (if n > 4 {
                n - 4
            } else {
                0
            }),
            first <= i <= n,
            forall|k: int| first <= k < i ==> !text::ends(path.deep_view()[k], name@),
        decreases n - i,
    {
        if text::has_suffix(path[i].as_str(), name) {
            assert(text::ends(path.deep_view()[i as int], name@));
            return true;
        }
        i += 1;
    }
    false
}

/// The innermost tag of a path.
pub open spec fn innermost(path: Seq<Seq<char>>) -> Seq<char> {
    if path.len() > 0 {
        path.last()
    } else {
        Seq::empty()
    }
}

/// The innermost tag of a path.
pub fn innermost_tag(path: &Vec<String>) -> (r: String)
    ensures
        r@ == innermost(path.deep_view()),
{
    if path.len() > 0 {
        path[path.len() - 1].clone()
    } else {
        String::new()
    }
}

// ---------------------------------------------------------------------------
// References, lines and platforms
// ---------------------------------------------------------------------------

/// A reference of a stop: a number, or one with a Swiss or SLOID prefix.
pub open spec fn stop_ref(value: Seq<char>) -> bool {
    let t = text::trimmed(value);
    t.len() > 0 && (text::all_digits(t) || text::starts(t, "ch:"@) || text::contains(
        t,
        ":sloid:"@,
    ))
}

/// Whether a text is a reference of a stop.
pub fn looks_like_stop_ref(value: &str) -> (r: bool)
    ensures
        r == stop_ref(value@),
{
    let t = text::trim(value);
    !t.as_str().is_empty() && (text::only_digits(t.as_str()) || text::has_prefix(t.as_str(), "ch:")
        || text::has(t.as_str(), ":sloid:"))
}

/// The key under which a name or reference is looked up.
pub open spec fn lookup_key(value: Seq<char>) -> Seq<char> {
    text::lowered(text::trimmed(value))
}

/// The key under which a name or reference is looked up.
pub fn normalize_lookup_key(value: &str) -> (r: String)
    ensures
        r@ == lookup_key(value@),
{
    let t = text::trim(value);
    text::to_lower(t.as_str())
}

/// A segment of a stop reference that names a platform: up to four letters and digits,
/// with a letter among them, that is no part of the naming scheme.
pub open spec fn platform_segment(s: Seq<char>) -> bool {
    let l = text::lowered(s);
    &&& s.len() > 0
    &&& s.len() <= 4
    &&& !(l == "ch"@ || l == "ojp"@ || l == "sloid"@ || l == "sjyid"@ || l == "plan"@)
    &&& !text::all_digits(s)
    &&& text::any_alpha(s)
}

/// The last platform segment of a list.
pub open spec fn last_platform_segment(parts: Seq<Seq<char>>) -> Option<Seq<char>>
    decreases parts.len(),
{
    if parts.len() == 0 {
        None
    } else if platform_segment(parts.last()) {
        Some(parts.last())
    } else {
        last_platform_segment(parts.drop_last())
    }
}

/// The platform that a stop reference names.
pub open spec fn ref_platform(value: Seq<char>) -> Option<Seq<char>> {
    last_platform_segment(text::pieces(value, CharSet::NotAlnum))
}

/// Whether a segment names a platform.
fn is_platform_segment(s: &str) -> (r: bool)
    ensures
        r == platform_segment(s@),
{
    let n: usize = s.unicode_len();
    if n == 0 || n > 4 {
        return false;
    }
    let lower = text::to_lower(s);
    let l = lower.as_str();
    let ignored = text::same(l, "ch") || text::same(l, "ojp") || text::same(l, "sloid")
        || text::same(l, "sjyid") || text::same(l, "plan");
    !ignored && !text::only_digits(s) && text::has_alpha(s)
}

/// The platform that a stop reference names.
pub fn platform_from_stop_point_ref(value: &str) -> (r: Option<String>)
    ensures
        r.deep_view() == ref_platform(value@),
{
    let parts = text::split(value, CharSet::NotAlnum);
    let ghost all = parts.deep_view();
    let mut i: usize = parts.len();
    assert(all.take(i as int) =~= all);
    while i > 0
        invariant
            all == parts.deep_view(),
            all == text::pieces(value@, CharSet::NotAlnum),
            i <= parts@.len(),
            last_platform_segment(all) == last_platform_segment(all.take(i as int)),
        decreases i,
    {
        assert(all.take(i as int).last() == parts@[i - 1]@);
        assert(all.take(i as int).drop_last() =~= all.take(i - 1));
        if is_platform_segment(parts[i - 1].as_str()) {
            let found = parts[i - 1].clone();
            return Some(found);
        }
        i -= 1;
    }
    None
}

/// A platform as it is shown: a stop reference is reduced to the platform in it.
pub open spec fn platform_value(value: Seq<char>) -> Option<Seq<char>> {
    let t = text::trimmed(value);
    if t.len() == 0 {
        None
    } else if stop_ref(t) && ref_platform(t) is Some {
        ref_platform(t)
    } else {
        Some(t)
    }
}

/// A platform as it is shown.
pub fn normalize_platform_value(value: &str) -> (r: Option<String>)
    ensures
        r.deep_view() == platform_value(value@),
{
    let t = text::trim(value);
    if t.as_str().is_empty() {
        return None;
    }
    if looks_like_stop_ref(t.as_str()) {
        let platform = platform_from_stop_point_ref(t.as_str());
        if platform.is_some() {
            return platform;
        }
    }
    Some(t)
}

/// Which platform a text names.
#[derive(Debug, Clone, Copy, PartialEq, Eq, Structural)]
pub enum PlatformKind {
    /// The one in the timetable.
    Scheduled,
    /// The one now expected.
    Expected,
    /// Either.
    Generic,
}

/// A text that belongs to a platform tag: directly, or in a wrapper within it.
pub open spec fn platform_text(path: Seq<Seq<char>>, tag: Seq<char>, container: Seq<char>) -> bool {
    tag == container || ((tag == "Text"@ || tag == "Name"@ || tag == "Value"@) && near(
        path,
        container,
    ))
}

/// Whether a text belongs to a platform tag.
pub fn is_platform_text_node(path: &Vec<String>, tag: &str, container: &str) -> (r: bool)
    ensures
        r == platform_text(path.deep_view(), tag@, container@),
{
    text::same(tag, container) || ((text::same(tag, "Text") || text::same(tag, "Name")
        || text::same(tag, "Value")) && path_contains(path, container))
}

/// The platform that a text at a path names.
pub open spec fn platform_kind(path: Seq<Seq<char>>, tag: Seq<char>) -> Option<PlatformKind> {
    if platform_text(path, tag, "EstimatedQuay"@) {
        Some(PlatformKind::Expected)
    } else if platform_text(path, tag, "PlannedQuay"@) {
        Some(PlatformKind::Scheduled)
    } else if platform_text(path, tag, "Platform"@) {
        Some(PlatformKind::Generic)
    } else {
        None
    }
}

/// The platform that a text at a path names.
pub fn detect_platform_kind(path: &Vec<String>, tag: &str) -> (r: Option<PlatformKind>)
    ensures
        r == platform_kind(path.deep_view(), tag@),
{
    if is_platform_text_node(path, tag, "EstimatedQuay") {
        return Some(PlatformKind::Expected);
    }
    if is_platform_text_node(path, tag, "PlannedQuay") {
        return Some(PlatformKind::Scheduled);
    }
    if is_platform_text_node(path, tag, "Platform") {
        return Some(PlatformKind::Generic);
    }
    None
}

/// What is there already, or else the new value.
pub open spec fn or_else<T>(present: Option<T>, new: Option<T>) -> Option<T> {
    if present is Some {
        present
    } else {
        new
    }
}

/// The planned platform after a platform of some kind was read.
pub open spec fn scheduled_after(
    scheduled: Option<Seq<char>>,
    kind: PlatformKind,
    value: Seq<char>,
) -> Option<Seq<char>> {
    if kind == PlatformKind::Expected {
        scheduled
    } else {
        or_else(scheduled, platform_value(value))
    }
}

/// The expected platform after a platform of some kind was read.
pub open spec fn expected_after(
    expected: Option<Seq<char>>,
    kind: PlatformKind,
    value: Seq<char>,
) -> Option<Seq<char>> {
    if kind == PlatformKind::Scheduled {
        expected
    } else {
        or_else(expected, platform_value(value))
    }
}

/// Takes note of a platform; the first one of a kind stays.
pub fn set_platform_candidate(
    scheduled: &mut Option<String>,
    expected: &mut Option<String>,
    kind: PlatformKind,
    value: &str,
)
    ensures
        final(scheduled).deep_view() == scheduled_after(old(scheduled).deep_view(), kind, value@),
        final(expected).deep_view() == expected_after(old(expected).deep_view(), kind, value@),
{
    match normalize_platform_value(value) {
        Some(platform) => {
            match kind {
                PlatformKind::Scheduled => {
                    if scheduled.is_none() {
                        *scheduled = Some(platform);
                    }
                },
                PlatformKind::Expected => {
                    if expected.is_none() {
                        *expected = Some(platform);
                    }
                },
                PlatformKind::Generic => {
                    if expected.is_none() {
                        *expected = Some(platform.clone());
                    }
                    if scheduled.is_none() {
                        *scheduled = Some(platform);
                    }
                },
            }
        },
        None => {},
    }
}

/// A technical reference, which is not meant for riders.
pub open spec fn machine_identifier(value: Seq<char>) -> bool {
    let t = text::trimmed(value);
    ||| text::starts(t, "ojp:"@)
    ||| text::starts(t, "ch:"@)
    ||| t.contains(':') && text::any_digit(t)
}

/// Whether a text is a technical reference.
pub fn looks_like_machine_identifier(value: &str) -> (r: bool)
    ensures
        r == machine_identifier(value@),
{
    let t = text::trim(value);
    let s = t.as_str();
    text::has_prefix(s, "ojp:") || text::has_prefix(s, "ch:") || (text::has_char(s, ':')
        && text::has_digit(s))
}

/// The line after another candidate for it was read: a readable one is taken, unless
/// there is a readable one already.
pub open spec fn preferred_line(present: Option<Seq<char>>, candidate: Seq<char>) -> Option<
    Seq<char>,
> {
    if text::trimmed(candidate).len() == 0 || machine_identifier(candidate) {
        present
    } else if present is Some && !machine_identifier(present->0) {
        present
    } else {
        Some(candidate)
    }
}

/// Takes note of a candidate for the line.
pub fn set_preferred_line(slot: &mut Option<String>, candidate: String)
    ensures
        final(slot).deep_view() == preferred_line(old(slot).deep_view(), candidate@),
{
    let t = text::trim(candidate.as_str());
    if t.as_str().is_empty() || looks_like_machine_identifier(candidate.as_str()) {
        return;
    }
    let keep = match &*slot {
        Some(current) => !looks_like_machine_identifier(current.as_str()),
        None => false,
    };
    if !keep {
        *slot = Some(candidate);
    }
}

// ---------------------------------------------------------------------------
// Occupancy
// ---------------------------------------------------------------------------

/// The letters and digits of a text.
pub open spec fn compact(value: Seq<char>) -> Seq<char> {
    text::without(text::lowered(text::trimmed(value)), CharSet::NotAlnum)
}

/// The level for riders that an occupancy code stands for.
pub open spec fn occupancy_level(value: Seq<char>) -> Option<Seq<char>> {
    let c = compact(value);
    if c == "manyseatsavailable"@ || c == "seatsavailable"@ || c == "emptymanyseatsavailable"@ {
        Some("low to average"@)
    } else if c == "fewseatsavailable"@ || c == "standingroomavailable"@ || c
        == "passengersstanding"@ {
        Some("high occupancy"@)
    } else if c == "standingroomonly"@ || c == "crushedstandingroomonly"@ || c == "full"@ {
        Some("very high occupancy"@)
    } else {
        None
    }
}

/// The level for riders that an occupancy code stands for.
pub fn normalize_occupancy_level(value: &str) -> (r: Option<String>)
    ensures
        r.deep_view() == occupancy_level(value@),
{
    let t = text::trim(value);
    let l = text::to_lower(t.as_str());
    let compacted = text::remove_chars(l.as_str(), CharSet::NotAlnum);
    let c = compacted.as_str();
    if text::same(c, "manyseatsavailable") || text::same(c, "seatsavailable") || text::same(
        c,
        "emptymanyseatsavailable",
    ) {
        Some("low to average".to_owned())
    } else if text::same(c, "fewseatsavailable") || text::same(c, "standingroomavailable")
        || text::same(c, "passengersstanding") {
        Some("high occupancy".to_owned())
    } else if text::same(c, "standingroomonly") || text::same(c, "crushedstandingroomonly")
        || text::same(c, "full") {
        Some("very high occupancy".to_owned())
    } else {
        None
    }
}

/// The rank of a level among the levels.
pub open spec fn level_rank(value: Seq<char>) -> int {
    let l = lookup_key(value);
    if l == "very high occupancy"@ {
        3
    } else if l == "high occupancy"@ {
        2
    } else if l == "low to average"@ {
        1
    } else {
        0
    }
}

/// The rank of a level among the levels.
pub fn occupancy_level_rank(value: &str) -> (r: i32)
    ensures
        r == level_rank(value@),
{
    let key = normalize_lookup_key(value);
    let l = key.as_str();
    if text::same(l, "very high occupancy") {
        3
    } else if text::same(l, "high occupancy") {
        2
    } else if text::same(l, "low to average") {
        1
    } else {
        0
    }
}

/// The highest of the levels that are there; the last one of equal rank.
pub open spec fn highest_level(levels: Seq<Option<Seq<char>>>) -> Option<Seq<char>>
    decreases levels.len(),
{
    if levels.len() == 0 {
        None
    } else {
        let before = highest_level(levels.drop_last());
        match levels.last() {
            Some(level) => if before is Some && level_rank(before->0) > level_rank(level) {
                before
            } else {
                Some(level)
            },
            None => before,
        }
    }
}

/// The highest of the levels that are there.
pub fn aggregate_occupancy_level(levels: &Vec<Option<&str>>) -> (r: Option<String>)
    ensures
        r.deep_view() == highest_level(levels.deep_view()),
{
    let mut best: Option<String> = None;
    let mut i: usize = 0;
    let ghost all = levels.deep_view();
    while i < levels.len()
        invariant
            all == levels.deep_view(),
            i <= levels@.len(),
            best.deep_view() == highest_level(all.take(i as int)),
        decreases levels@.len() - i,
    {
        assert(all.take(i + 1).drop_last() =~= all.take(i as int));
        assert(all.take(i + 1).last() == levels@[i as int].deep_view());
        match levels[i] {
            Some(level) => {
                let keep = match &best {
                    Some(b) => occupancy_level_rank(b.as_str()) > occupancy_level_rank(level),
                    None => false,
                };
                if !keep {
                    best = Some(level.to_owned());
                }
            },
            None => {},
        }
        i += 1;
    }
    assert(all.take(i as int) =~= all);
    best
}

// ---------------------------------------------------------------------------
// Times and places
// ---------------------------------------------------------------------------

/// The first of the moments that a local time denotes.
pub open spec fn earliest(mapping: LocalMapping) -> Option<FixedDateTime> {
    match mapping {
        LocalMapping::Single(t) => Some(t),
        LocalMapping::Ambiguous(t, _) => Some(t),
        LocalMapping::Missing => None,
    }
}

/// The time that a text of a document denotes: with an offset, or else on Zurich's
/// clock.
pub open spec fn ojp_time(value: Seq<char>) -> Option<FixedDateTime> {
    match time::rfc3339_value(value) {
        Some(t) => Some(time::zurich(t)),
        None => match time::naive_value(value, "%Y-%m-%dT%H:%M:%S"@) {
            Some(local) => earliest(time::zurich_local(local)),
            None => None,
        },
    }
}

/// The first of the moments that a local time denotes.
pub fn first_moment(mapping: LocalMapping) -> (r: Option<FixedDateTime>)
    ensures
        r == earliest(mapping),
{
    match mapping {
        LocalMapping::Single(t) => Some(t),
        LocalMapping::Ambiguous(t, _) => Some(t),
        LocalMapping::Missing => None,
    }
}

/// The time that a text of a document denotes.
pub fn parse_ojp_datetime(value: &str) -> (r: Option<FixedDateTime>)
    ensures
        r == ojp_time(value@),
{
    match time::parse_rfc3339(value) {
        Some(t) => Some(time::to_zurich(t)),
        None => match time::parse_naive(value, "%Y-%m-%dT%H:%M:%S") {
            Some(local) => first_moment(time::zurich_from_local(local)),
            None => None,
        },
    }
}

/// The whole minutes between two times, as far as they fit.
pub open spec fn delay(expected: FixedDateTime, scheduled: FixedDateTime) -> i32 {
    (time::minutes_apart(expected, scheduled) as i64) as i32
}

/// The whole minutes between two times; beyond the range of the type they wrap.
pub fn delay_minutes(expected: FixedDateTime, scheduled: FixedDateTime) -> (r: i32)
    ensures
        r == delay(expected, scheduled),
{
    time::minutes_between(expected, scheduled) as i32
}

/// The times at a stop: each time that is missing is taken from the other.
pub open spec fn call_time(
    scheduled: Option<FixedDateTime>,
    expected: Option<FixedDateTime>,
) -> Option<StopCallTime> {
    match or_else(scheduled, expected) {
        Some(planned) => {
            let now = match expected {
                Some(e) => e,
                None => planned,
            };
            Some(StopCallTime { scheduled: planned, expected: now, delay_minutes: delay(now, planned) })
        },
        None => None,
    }
}

/// The times at a stop.
pub fn build_stop_call_time(
    scheduled: Option<FixedDateTime>,
    expected: Option<FixedDateTime>,
) -> (r: Option<StopCallTime>)
    ensures
        r == call_time(scheduled, expected),
{
    let planned = match (scheduled, expected) {
        (Some(s), _) => s,
        (None, Some(e)) => e,
        (None, None) => return None,
    };
    let now = match expected {
        Some(e) => e,
        None => planned,
    };
    Some(
        StopCallTime {
            scheduled: planned,
            expected: now,
            delay_minutes: delay_minutes(now, planned),
        },
    )
}

/// A place on the map, if both coordinates are there.
pub open spec fn geo_point(
    latitude: Option<Seq<char>>,
    longitude: Option<Seq<char>>,
) -> Option<GeoPointView> {
    match (latitude, longitude) {
        (Some(lat), Some(lon)) => Some(GeoPointView { latitude: lat, longitude: lon }),
        _ => None,
    }
}

/// A place on the map, if both coordinates are there.
pub fn build_geo_point(latitude: Option<Coordinate>, longitude: Option<Coordinate>) -> (r: Option<
    GeoPoint,
>)
    ensures
        r.deep_view() == geo_point(latitude.deep_view(), longitude.deep_view()),
{
    match (latitude, longitude) {
        (Some(lat), Some(lon)) => Some(GeoPoint { latitude: lat, longitude: lon }),
        _ => None,
    }
}

// ---------------------------------------------------------------------------
// Laws
// ---------------------------------------------------------------------------

/// The prefix of a tag's name does not matter: what counts is what stands behind the last
/// colon.
pub proof fn law_prefixes_do_not_matter(prefix: Seq<char>, name: Seq<char>)
    requires
        !name.contains(':'),
    ensures
        local_part(name) == name,
        local_part(prefix + seq![':'] + name) == name,
{
    lemma_local_part(Seq::empty(), name);
    lemma_local_part(prefix + seq![':'], name);
    assert(Seq::<char>::empty() + name =~= name);
    let set = CharSet::Only(':');
    let head = prefix + seq![':'];
    assert(head.drop_last() =~= prefix);
    assert(text::pieces(head, set).last() =~= Seq::empty());
    assert(text::pieces(Seq::<char>::empty(), set).last() =~= Seq::empty());
}

proof fn lemma_local_part(head: Seq<char>, name: Seq<char>)
    requires
        !name.contains(':'),
    ensures
        text::pieces(head, CharSet::Only(':')).last().len() == 0 ==> local_part(head + name)
            == name,
        text::pieces(head, CharSet::Only(':')).len() > 0,
    decreases name.len(),
{
    let set = CharSet::Only(':');
    text::law_pieces_make_up_the_text(head, ':');
    if name.len() == 0 {
        assert(head + name =~= head);
        if text::pieces(head, set).last().len() == 0 {
            assert(local_part(head + name) =~= name);
        }
    } else {
        let t = name.drop_last();
        assert(name[name.len() - 1] == name.last());
        if t.contains(':') {
            let k = choose|k: int| 0 <= k < t.len() && t[k] == ':';
            assert(name[k] == ':');
        }
        lemma_local_part(head, t);
        text::law_pieces_make_up_the_text(head + t, ':');
        assert((head + name).drop_last() =~= head + t);
        assert(name.contains(name.last()));
        assert(t.push(name.last()) =~= name);
    }
}

/// An element is near if its name ends one of the last four open tags.
pub proof fn law_near_is_within_four(path: Seq<Seq<char>>, name: Seq<char>, i: int)
    requires
        0 <= i < path.len(),
        i + 4 >= path.len(),
    ensures
        path[i] == name ==> near(path, name),
        near(path.push(name), name),
        near(path.push(Seq::empty()).push(Seq::empty()).push(Seq::empty()), path.last()),
{
    if path[i] == name {
        assert(name.subrange(0, name.len() as int) =~= name);
        assert(text::ends(path[i], name));
    }
    let more = path.push(name);
    assert(name.subrange(0, name.len() as int) =~= name);
    assert(text::ends(more[path.len() as int], name));
    let deep = path.push(Seq::empty()).push(Seq::empty()).push(Seq::empty());
    let last = path.last();
    assert(last.subrange(0, last.len() as int) =~= last);
    assert(text::ends(deep[path.len() - 1], last));
}

/// An element that is more than four tags away is not near, unless one of the last four
/// has such a name.
pub proof fn law_far_is_not_near(path: Seq<Seq<char>>, name: Seq<char>)
    requires
        near(path, name),
    ensures
        exists|i: int|
            #![trigger path[i]]
            0 <= i < path.len() && i + 4 >= path.len() && path[i].len() >= name.len()
                && path[i].skip(path[i].len() - name.len()) == name,
{
    let i = choose|i: int|
        0 <= i < path.len() && path.len() - 4 <= i && text::ends(#[trigger] path[i], name);
    assert(path[i].skip(path[i].len() - name.len()) =~= name);
}

/// What a search result is, by its tag.
pub proof fn law_kinds_of_places()
    ensures
        station_kind("StopPlace"@) == StationType::Stop,
        station_kind("StopPoint"@) == StationType::Stop,
        station_kind("Address"@) == StationType::Address,
        station_kind("PointOfInterest"@) == StationType::Poi,
        station_kind("TopographicPlace"@) == StationType::Poi,
        station_tag("StopPlace"@) && station_tag("StopPoint"@) && station_tag("Address"@)
            && station_tag("PointOfInterest"@) && station_tag("TopographicPlace"@),
{
    reveal_strlit("StopPlace");
    reveal_strlit("StopPoint");
    reveal_strlit("Address");
    reveal_strlit("PointOfInterest");
    reveal_strlit("TopographicPlace");
    assert("StopPlace"@.len() == 9);
    assert("StopPoint"@.len() == 9);
    assert("Address"@.len() == 7);
    assert("PointOfInterest"@.len() == 15);
    assert("TopographicPlace"@.len() == 16);
}

/// The calls at a stop, by their tags.
pub proof fn law_kinds_of_calls()
    ensures
        stop_call_tag("LegBoard"@) && stop_call_tag("LegIntermediate"@) && stop_call_tag(
            "LegAlight"@,
        ) && stop_call_tag("CallAtStop"@) && stop_call_tag("IntermediateStop"@) && stop_call_tag(
            "OnwardCall"@,
        ) && stop_call_tag("PreviousCall"@) && stop_call_tag("LegStart"@) && stop_call_tag(
            "LegEnd"@,
        ),
{
}

/// Fuller levels have higher ranks.
pub proof fn law_levels_are_ranked()
    ensures
        level_rank("very high occupancy"@) > level_rank("high occupancy"@),
        level_rank("high occupancy"@) > level_rank("low to average"@),
        level_rank("low to average"@) > 0,
{
    reveal_strlit("very high occupancy");
    reveal_strlit("high occupancy");
    reveal_strlit("low to average");
    let a = "very high occupancy"@;
    let b = "high occupancy"@;
    let c = "low to average"@;
    assert(a.len() == 19 && a.first() == 'v' && a.last() == 'y');
    assert(b.len() == 14 && b.first() == 'h' && b.last() == 'y');
    assert(c.len() == 14 && c.first() == 'l' && c.last() == 'e');
    assert(text::trimmed(a) == a);
    assert(text::trimmed(b) == b);
    assert(text::trimmed(c) == c);
    assert(text::lowered(a) =~= a);
    assert(text::lowered(b) =~= b);
    assert(text::lowered(c) =~= c);
}

/// What the codes of occupancy mean, whatever their case and the signs between the words.
pub proof fn law_levels_of_occupancy(value: Seq<char>)
    ensures
        ({
            let c = text::without(text::lowered(text::trimmed(value)), CharSet::NotAlnum);
            let level = occupancy_level(value);
            &&& c == "manyseatsavailable"@ || c == "seatsavailable"@ || c
                == "emptymanyseatsavailable"@ ==> level == Some("low to average"@)
            &&& c == "fewseatsavailable"@ || c == "standingroomavailable"@ || c
                == "passengersstanding"@ ==> level == Some("high occupancy"@)
            &&& c == "standingroomonly"@ || c == "crushedstandingroomonly"@ || c == "full"@
                ==> level == Some("very high occupancy"@)
            &&& level is Some ==> level->0 == "low to average"@ || level->0 == "high occupancy"@
                || level->0 == "very high occupancy"@
        }),
{
    reveal_strlit("manyseatsavailable");
    reveal_strlit("seatsavailable");
    reveal_strlit("emptymanyseatsavailable");
    reveal_strlit("fewseatsavailable");
    reveal_strlit("standingroomavailable");
    reveal_strlit("passengersstanding");
    reveal_strlit("standingroomonly");
    reveal_strlit("crushedstandingroomonly");
    reveal_strlit("full");
    assert("manyseatsavailable"@.len() == 18 && "manyseatsavailable"@[0] == 'm');
    assert("seatsavailable"@.len() == 14);
    assert("emptymanyseatsavailable"@.len() == 23 && "emptymanyseatsavailable"@[0] == 'e');
    assert("fewseatsavailable"@.len() == 17);
    assert("standingroomavailable"@.len() == 21);
    assert("passengersstanding"@.len() == 18 && "passengersstanding"@[0] == 'p');
    assert("standingroomonly"@.len() == 16);
    assert("crushedstandingroomonly"@.len() == 23 && "crushedstandingroomonly"@[0] == 'c');
    assert("full"@.len() == 4);
}

/// A line for riders takes the place of a reference for machines, and the first one stays.
pub proof fn law_line_for_riders_is_preferred(present: Seq<char>, candidate: Seq<char>)
    requires
        text::trimmed(candidate).len() > 0,
    ensures
        !machine_identifier(candidate) ==> preferred_line(None, candidate) == Some(candidate),
        !machine_identifier(candidate) && machine_identifier(present) ==> preferred_line(
            Some(present),
            candidate,
        ) == Some(candidate),
        !machine_identifier(present) ==> preferred_line(Some(present), candidate) == Some(present),
        machine_identifier(candidate) ==> preferred_line(None, candidate) is None,
        text::starts(text::trimmed(candidate), "ojp:"@) || text::starts(
            text::trimmed(candidate),
            "ch:"@,
        ) ==> machine_identifier(candidate),
        !text::trimmed(candidate).contains(':') && !text::starts(text::trimmed(candidate), "ojp:"@)
            && !text::starts(text::trimmed(candidate), "ch:"@) ==> !machine_identifier(candidate),
{
}

/// A text with an offset denotes its own instant, told on Zurich's clock; one without an
/// offset is told by that clock, and of two such moments the earlier counts.
pub proof fn law_times_are_told_in_zurich(value: Seq<char>)
    ensures
        time::rfc3339_value(value) matches Some(t) ==> {
            &&& ojp_time(value) is Some
            &&& ojp_time(value)->0 == FixedDateTime::of_parts(
                t.unix(),
                t.subsec(),
                time::zurich_offset(t.unix()),
            )
        },
        time::rfc3339_value(value) is None && time::naive_value(value, "%Y-%m-%dT%H:%M:%S"@)
            is None ==> ojp_time(value) is None,
        time::rfc3339_value(value) is None ==> (time::naive_value(value, "%Y-%m-%dT%H:%M:%S"@)
            matches Some(local) ==> match time::zurich_local(local) {
            LocalMapping::Single(t) => ojp_time(value) == Some(t),
            LocalMapping::Ambiguous(t, _) => ojp_time(value) == Some(t),
            LocalMapping::Missing => ojp_time(value) is None,
        }),
{
}

/// A platform in the timetable stays what it was first told to be, and so does the expected
/// one; a platform that is told of without more is both.
pub proof fn law_platforms_are_told(present: Seq<char>, value: Seq<char>)
    requires
        platform_value(value) is Some,
    ensures
        scheduled_after(None, PlatformKind::Scheduled, value) == platform_value(value),
        scheduled_after(None, PlatformKind::Generic, value) == platform_value(value),
        scheduled_after(None, PlatformKind::Expected, value) is None,
        expected_after(None, PlatformKind::Expected, value) == platform_value(value),
        expected_after(None, PlatformKind::Generic, value) == platform_value(value),
        expected_after(None, PlatformKind::Scheduled, value) is None,
        forall|kind: PlatformKind|
            #![trigger scheduled_after(Some(present), kind, value)]
            scheduled_after(Some(present), kind, value) == Some(present) && expected_after(
                Some(present),
                kind,
                value,
            ) == Some(present),
        platform_kind(seq!["EstimatedQuay"@], "EstimatedQuay"@) == Some(PlatformKind::Expected),
        !stop_ref(text::trimmed(value)) ==> platform_value(value) == Some(text::trimmed(value)),
{
}

/// A place on the map has the latitude and the longitude that were read, and both are
/// needed.
pub proof fn law_places_need_both_coordinates(latitude: Seq<char>, longitude: Seq<char>)
    ensures
        geo_point(Some(latitude), Some(longitude)) is Some,
        geo_point(Some(latitude), Some(longitude))->0.latitude == latitude,
        geo_point(Some(latitude), Some(longitude))->0.longitude == longitude,
        geo_point(None, Some(longitude)) is None,
        geo_point(Some(latitude), None) is None,
{
}

/// The times at a stop are the planned and the expected one; where one is missing, the
/// other stands for both.
pub proof fn law_times_at_a_stop(a: FixedDateTime, b: FixedDateTime)
    ensures
        call_time(Some(a), Some(b)) is Some,
        call_time(Some(a), Some(b))->0.scheduled == a && call_time(Some(a), Some(b))->0.expected
            == b,
        call_time(Some(a), None) is Some,
        call_time(Some(a), None)->0.scheduled == a && call_time(Some(a), None)->0.expected == a,
        call_time(None, Some(b)) is Some,
        call_time(None, Some(b))->0.scheduled == b && call_time(None, Some(b))->0.expected == b,
        call_time(None, None) is None,
{
}

/// The shapes of the names of tags, by which they differ.
pub proof fn lemma_tag_shapes()
    ensures
        "Mode"@.len() == 4 && "Mode"@[0] == 'M',
        "PtMode"@.len() == 6 && "PtMode"@[0] == 'P',
        "PublicCode"@.len() == 10 && "PublicCode"@[0] == 'P',
        "PublishedLineName"@.len() == 17,
        "Text"@.len() == 4 && "Text"@[0] == 'T',
        "OperatorRef"@.len() == 11 && "OperatorRef"@[0] == 'O' && "OperatorRef"@[7] == 'r',
        "OperatorName"@.len() == 12 && "OperatorName"@[0] == 'O' && "OperatorName"@[5] == 't',
        "LocationName"@.len() == 12 && "LocationName"@[0] == 'L' && "LocationName"@[5] == 'i',
        "StopPointName"@.len() == 13 && "StopPointName"@[0] == 'S' && "StopPointName"@[5] == 'o' && "StopPointName"@[9] == 'N',
        "Name"@.len() == 4 && "Name"@[0] == 'N',
        "StopPointRef"@.len() == 12 && "StopPointRef"@[0] == 'S' && "StopPointRef"@[5] == 'o',
        "LineRef"@.len() == 7 && "LineRef"@[0] == 'L',
        "JourneyRef"@.len() == 10 && "JourneyRef"@[0] == 'J',
        "Longitude"@.len() == 9 && "Longitude"@[0] == 'L' && "Longitude"@[4] == 'i' && "Longitude"@[5] == 't',
        "Latitude"@.len() == 8 && "Latitude"@[0] == 'L' && "Latitude"@[1] == 'a',
        "TimetabledTime"@.len() == 14 && "TimetabledTime"@[0] == 'T',
        "EstimatedTime"@.len() == 13 && "EstimatedTime"@[0] == 'E' && "EstimatedTime"@[5] == 'a' && "EstimatedTime"@[9] == 'T',
        "Value"@.len() == 5,
        "EstimatedQuay"@.len() == 13 && "EstimatedQuay"@[0] == 'E' && "EstimatedQuay"@[5] == 'a' && "EstimatedQuay"@[9] == 'Q',
        "PlannedQuay"@.len() == 11 && "PlannedQuay"@[0] == 'P' && "PlannedQuay"@[7] == 'Q',
        "Platform"@.len() == 8 && "Platform"@[0] == 'P' && "Platform"@[1] == 'l',
        "StopPlaceRef"@.len() == 12 && "StopPlaceRef"@[0] == 'S' && "StopPlaceRef"@[5] == 'l',
        "StopPlaceName"@.len() == 13 && "StopPlaceName"@[0] == 'S' && "StopPlaceName"@[5] == 'l' && "StopPlaceName"@[9] == 'N',
        "TopographicPlaceName"@.len() == 20 && "TopographicPlaceName"@[16] == 'N',
        "FareClass"@.len() == 9 && "FareClass"@[0] == 'F' && "FareClass"@[4] == 'C' && "FareClass"@[5] == 'l',
        "OccupancyLevel"@.len() == 14 && "OccupancyLevel"@[0] == 'O',
        "DatedJourneyStatus"@.len() == 18,
        "Status"@.len() == 6 && "Status"@[0] == 'S',
        "TopographicPlaceCode"@.len() == 20 && "TopographicPlaceCode"@[16] == 'C',
        "AddressCode"@.len() == 11 && "AddressCode"@[0] == 'A' && "AddressCode"@[7] == 'C',
        "id"@.len() == 2,
        "AddressName"@.len() == 11 && "AddressName"@[0] == 'A' && "AddressName"@[7] == 'N',
        "PointOfInterestName"@.len() == 19,
        "StopEventResult"@.len() == 15 && "StopEventResult"@[0] == 'S',
        "StopEvent"@.len() == 9 && "StopEvent"@[0] == 'S' && "StopEvent"@[4] == 'E' && "StopEvent"@[5] == 'v',
        "StopPlace"@.len() == 9 && "StopPlace"@[0] == 'S' && "StopPlace"@[4] == 'P' && "StopPlace"@[5] == 'l',
        "StopPoint"@.len() == 9 && "StopPoint"@[0] == 'S' && "StopPoint"@[4] == 'P' && "StopPoint"@[5] == 'o',
        "Address"@.len() == 7 && "Address"@[0] == 'A',
        "PointOfInterest"@.len() == 15 && "PointOfInterest"@[0] == 'P',
        "TopographicPlace"@.len() == 16,
        "Location"@.len() == 8 && "Location"@[0] == 'L' && "Location"@[1] == 'o',
{
    reveal_strlit("Mode");
    reveal_strlit("PtMode");
    reveal_strlit("PublicCode");
    reveal_strlit("PublishedLineName");
    reveal_strlit("Text");
    reveal_strlit("OperatorRef");
    reveal_strlit("OperatorName");
    reveal_strlit("LocationName");
    reveal_strlit("StopPointName");
    reveal_strlit("Name");
    reveal_strlit("StopPointRef");
    reveal_strlit("LineRef");
    reveal_strlit("JourneyRef");
    reveal_strlit("Longitude");
    reveal_strlit("Latitude");
    reveal_strlit("TimetabledTime");
    reveal_strlit("EstimatedTime");
    reveal_strlit("Value");
    reveal_strlit("EstimatedQuay");
    reveal_strlit("PlannedQuay");
    reveal_strlit("Platform");
    reveal_strlit("StopPlaceRef");
    reveal_strlit("StopPlaceName");
    reveal_strlit("TopographicPlaceName");
    reveal_strlit("FareClass");
    reveal_strlit("OccupancyLevel");
    reveal_strlit("DatedJourneyStatus");
    reveal_strlit("Status");
    reveal_strlit("TopographicPlaceCode");
    reveal_strlit("AddressCode");
    reveal_strlit("id");
    reveal_strlit("AddressName");
    reveal_strlit("PointOfInterestName");
    reveal_strlit("StopEventResult");
    reveal_strlit("StopEvent");
    reveal_strlit("StopPlace");
    reveal_strlit("StopPoint");
    reveal_strlit("Address");
    reveal_strlit("PointOfInterest");
    reveal_strlit("TopographicPlace");
    reveal_strlit("Location");
}

/// A `Location` wraps one result if the tag around it is a `Location` or the delivery of
/// results; no other tag does, nor one without a tag around it.
pub proof fn law_results_are_wrapped(outer: Seq<Seq<char>>, around: Seq<char>, tag: Seq<char>)
    ensures
        result_tag(outer.push(around).push(tag), tag) <==> tag == "Location"@ && (around
            == "Location"@ || around == "OJPLocationInformationDelivery"@),
        !result_tag(seq![tag], tag),
{
}

/// A blank candidate for the line changes nothing.
pub proof fn law_blank_line_is_passed_over(present: Option<Seq<char>>, candidate: Seq<char>)
    ensures
        text::trimmed(candidate).len() == 0 ==> preferred_line(present, candidate) == present,
        machine_identifier(candidate) ==> preferred_line(present, candidate) == present,
{
}

} // verus!
