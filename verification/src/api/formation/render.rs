//! A train for display: in words, as a diagram, and as data.

use vstd::prelude::*;

use crate::api::formation::coach;
use crate::api::formation::coach::{FormationCoach, FormationCoachView};
use crate::duplicate::Duplicate;
use crate::models::{
    WagonFormationCoach, WagonFormationCoachView, WagonFormationPadding, WagonFormationParsed,
    WagonFormationParsedView, WagonFormationSectorRange, WagonFormationSectorRangeView,
};
use crate::order;
use crate::text;
use crate::text::CharSet;

verus! {

/// A train for display.
#[derive(Debug)]
pub struct FormationRender {
    /// In words.
    pub readable: String,
    /// As a diagram.
    pub diagram: String,
    /// For riders.
    pub human_display: String,
    /// Where to board.
    pub boarding_hint: String,
    /// What the diagram means.
    pub legend: Vec<String>,
    /// As data.
    pub parsed: WagonFormationParsed,
    /// Coaches at each sector.
    pub sector_to_coach_range: Vec<WagonFormationSectorRange>,
    /// Coaches with access features.
    pub accessible_coaches: Vec<String>,
    /// Coaches with first class.
    pub first_class_coaches: Vec<String>,
    /// Coaches with second class.
    pub second_class_coaches: Vec<String>,
}

/// The view of a [`FormationRender`].
#[verifier::ext_equal]
pub struct FormationRenderView {
    pub readable: Seq<char>,
    pub diagram: Seq<char>,
    pub human_display: Seq<char>,
    pub boarding_hint: Seq<char>,
    pub legend: Seq<Seq<char>>,
    pub parsed: WagonFormationParsedView,
    pub sector_to_coach_range: Seq<WagonFormationSectorRangeView>,
    pub accessible_coaches: Seq<Seq<char>>,
    pub first_class_coaches: Seq<Seq<char>>,
    pub second_class_coaches: Seq<Seq<char>>,
}

impl DeepView for FormationRender {
    type V = FormationRenderView;

    open spec fn deep_view(&self) -> FormationRenderView {
        FormationRenderView {
            readable: self.readable.deep_view(),
            diagram: self.diagram.deep_view(),
            human_display: self.human_display.deep_view(),
            boarding_hint: self.boarding_hint.deep_view(),
            legend: self.legend.deep_view(),
            parsed: self.parsed.deep_view(),
            sector_to_coach_range: self.sector_to_coach_range.deep_view(),
            accessible_coaches: self.accessible_coaches.deep_view(),
            first_class_coaches: self.first_class_coaches.deep_view(),
            second_class_coaches: self.second_class_coaches.deep_view(),
        }
    }
}

impl Duplicate for FormationRender {
    fn duplicate(&self) -> (r: Self) {
        FormationRender {
            readable: self.readable.duplicate(),
            diagram: self.diagram.duplicate(),
            human_display: self.human_display.duplicate(),
            boarding_hint: self.boarding_hint.duplicate(),
            legend: self.legend.duplicate(),
            parsed: self.parsed.duplicate(),
            sector_to_coach_range: self.sector_to_coach_range.duplicate(),
            accessible_coaches: self.accessible_coaches.duplicate(),
            first_class_coaches: self.first_class_coaches.duplicate(),
            second_class_coaches: self.second_class_coaches.duplicate(),
        }
    }
}

impl Clone for FormationRender {
    fn clone(&self) -> (r: Self)
        ensures
            r.deep_view() == self.deep_view(),
    {
        self.duplicate()
    }
}

// ---------------------------------------------------------------------------
// Codes
// ---------------------------------------------------------------------------

/// What a code of a vehicle type means.
pub open spec fn vehicle_label(code: Seq<char>) -> Seq<char> {
    let c = text::uppered(code);
    if c == "1"@ {
        "1st class"@
    } else if c == "2"@ {
        "2nd class"@
    } else if c == "12"@ {
        "mixed 1st/2nd class"@
    } else if c == "CC"@ {
        "couchette coach"@
    } else if c == "FA"@ {
        "family coach"@
    } else if c == "WL"@ {
        "sleeping coach"@
    } else if c == "WR"@ {
        "restaurant coach"@
    } else if c == "W1"@ {
        "dining + 1st class"@
    } else if c == "W2"@ {
        "dining + 2nd class"@
    } else if c == "LK"@ {
        "traction unit"@
    } else if c == "D"@ {
        "baggage coach"@
    } else if c == "F"@ {
        "fictitious padding coach"@
    } else if c == "K"@ {
        "classless coach"@
    } else if c == "X"@ {
        "stabled coach"@
    } else {
        "coach"@
    }
}

/// What a code of a vehicle type means.
pub fn map_vehicle_type(type_code: &str) -> (r: &'static str)
    ensures
        r@ == vehicle_label(type_code@),
{
    let upper = text::to_upper(type_code);
    let c = upper.as_str();
    if text::same(c, "1") {
        "1st class"
    } else if text::same(c, "2") {
        "2nd class"
    } else if text::same(c, "12") {
        "mixed 1st/2nd class"
    } else if text::same(c, "CC") {
        "couchette coach"
    } else if text::same(c, "FA") {
        "family coach"
    } else if text::same(c, "WL") {
        "sleeping coach"
    } else if text::same(c, "WR") {
        "restaurant coach"
    } else if text::same(c, "W1") {
        "dining + 1st class"
    } else if text::same(c, "W2") {
        "dining + 2nd class"
    } else if text::same(c, "LK") {
        "traction unit"
    } else if text::same(c, "D") {
        "baggage coach"
    } else if text::same(c, "F") {
        "fictitious padding coach"
    } else if text::same(c, "K") {
        "classless coach"
    } else if text::same(c, "X") {
        "stabled coach"
    } else {
        "coach"
    }
}

/// What a code of a service means.
pub open spec fn service_text(code: Seq<char>) -> Seq<char> {
    let c = text::uppered(code);
    if c == "BHP"@ {
        "wheelchair spaces"@
    } else if c == "BZ"@ {
        "business zone"@
    } else if c == "FZ"@ {
        "family zone"@
    } else if c == "KW"@ {
        "stroller area"@
    } else if c == "NF"@ {
        "low-floor access"@
    } else if c == "VH"@ {
        "bike spaces"@
    } else if c == "VR"@ {
        "bike spaces (reservation required)"@
    } else {
        "special service ("@ + c + ")"@
    }
}

/// What a code of a service means.
pub fn service_description(code: &str) -> (r: String)
    ensures
        r@ == service_text(code@),
{
    let upper = text::to_upper(code);
    let c = upper.as_str();
    if text::same(c, "BHP") {
        "wheelchair spaces".to_owned()
    } else if text::same(c, "BZ") {
        "business zone".to_owned()
    } else if text::same(c, "FZ") {
        "family zone".to_owned()
    } else if text::same(c, "KW") {
        "stroller area".to_owned()
    } else if text::same(c, "NF") {
        "low-floor access".to_owned()
    } else if text::same(c, "VH") {
        "bike spaces".to_owned()
    } else if text::same(c, "VR") {
        "bike spaces (reservation required)".to_owned()
    } else {
        let mut s = "special service (".to_owned();
        s.append(c);
        s.append(")");
        s
    }
}

/// What codes of services mean.
pub open spec fn service_texts(s: Seq<Seq<char>>) -> Seq<Seq<char>> {
    Seq::new(s.len(), |i: int| service_text(s[i]))
}

/// What codes of services mean.
fn describe_services(v: &Vec<String>) -> (r: Vec<String>)
    ensures
        r.deep_view() == service_texts(v.deep_view()),
{
    let mut out: Vec<String> = Vec::new();
    let mut i: usize = 0;
    while i < v.len()
        invariant
            i <= v@.len(),
            out@.len() == i,
            forall|k: int|
                0 <= k < i ==> (#[trigger] out@[k])@ == service_texts(v.deep_view())[k],
        decreases v@.len() - i,
    {
        assert(v.deep_view()[i as int] == v@[i as int].deep_view());
        out.push(service_description(v[i].as_str()));
        i += 1;
    }
    assert(out.deep_view() =~= service_texts(v.deep_view()));
    out
}

/// What a coach is selected by.
#[derive(Debug, Clone, Copy, PartialEq, Eq, Structural)]
pub enum CoachFeature {
    /// Room for wheelchairs, strollers or bicycles, or access without a step.
    Accessible,
    /// First class.
    FirstClass,
    /// Second class.
    SecondClass,
}

/// A code of a service that makes a coach accessible.
pub open spec fn access_code(code: Seq<char>) -> bool {
    let c = text::uppered(code);
    c == "BHP"@ || c == "KW"@ || c == "NF"@ || c == "VR"@ || c == "VH"@
}

/// Whether a coach has a feature.
pub open spec fn has_feature(c: FormationCoachView, feature: CoachFeature) -> bool {
    let code = text::uppered(c.type_code);
    match feature {
        CoachFeature::Accessible => exists|i: int|
            0 <= i < c.services.len() && access_code(#[trigger] c.services[i]),
        CoachFeature::FirstClass => code == "1"@ || code == "W1"@ || code == "12"@,
        CoachFeature::SecondClass => code == "2"@ || code == "W2"@ || code == "12"@,
    }
}

fn is_accessible(c: &FormationCoach) -> (r: bool)
    ensures
        r == has_feature(c.deep_view(), CoachFeature::Accessible),
{
    let ghost all = c.deep_view().services;
    let mut i: usize = 0;
    while i < c.services.len()
        invariant
            i <= c.services@.len(),
            all == c.deep_view().services,
            forall|k: int| 0 <= k < i ==> !access_code(#[trigger] all[k]),
        decreases c.services@.len() - i,
    {
        let upper = text::to_upper(c.services[i].as_str());
        let s = upper.as_str();
        assert(all[i as int] == c.services@[i as int]@);
        if text::same(s, "BHP") || text::same(s, "KW") || text::same(s, "NF") || text::same(s, "VR")
            || text::same(s, "VH") {
            assert(access_code(all[i as int]));
            return true;
        }
        i += 1;
    }
    false
}

/// Whether a coach has a feature.
pub fn check_feature(c: &FormationCoach, feature: CoachFeature) -> (r: bool)
    ensures
        r == has_feature(c.deep_view(), feature),
{
    let upper = text::to_upper(c.type_code.as_str());
    let code = upper.as_str();
    match feature {
        CoachFeature::Accessible => is_accessible(c),
        CoachFeature::FirstClass => text::same(code, "1") || text::same(code, "W1") || text::same(
            code,
            "12",
        ),
        CoachFeature::SecondClass => text::same(code, "2") || text::same(code, "W2") || text::same(
            code,
            "12",
        ),
    }
}

// ---------------------------------------------------------------------------
// Words and diagram
// ---------------------------------------------------------------------------

/// The label of a coach: its type and, if it has one, its number.
pub open spec fn label_of(c: FormationCoachView) -> Seq<char> {
    match c.order {
        Some(order) => c.type_code + ":"@ + order,
        None => c.type_code,
    }
}

/// The label of a coach.
pub fn coach_label(c: &FormationCoach) -> (r: String)
    ensures
        r@ == label_of(c.deep_view()),
{
    let mut label = c.type_code.clone();
    match &c.order {
        Some(order) => {
            label.append(":");
            label.append(order.as_str());
        },
        None => {},
    }
    label
}

/// The sector of a coach in words, if it is known.
pub open spec fn sector_words(sector: Option<char>) -> Seq<Seq<char>> {
    match sector {
        Some(c) => seq!["sector "@ + seq![c]],
        None => Seq::empty(),
    }
}

/// A remark, if it applies.
pub open spec fn remark(applies: bool, words: Seq<char>) -> Seq<Seq<char>> {
    if applies {
        seq![words]
    } else {
        Seq::empty()
    }
}

/// What there is to say of a coach.
pub open spec fn details_of(c: FormationCoachView) -> Seq<Seq<char>> {
    seq![vehicle_label(c.type_code)] + sector_words(c.sector) + remark(
        c.no_pass_left,
        "no passage to previous coach"@,
    ) + remark(c.no_pass_right, "no passage to next coach"@) + service_texts(c.services)
}

/// A coach in words.
pub open spec fn coach_words(c: FormationCoachView) -> Seq<char> {
    label_of(c) + " ("@ + text::joined(details_of(c), ", "@) + ")"@
}

fn add_text(list: &mut Vec<String>, s: String)
    ensures
        final(list).deep_view() == old(list).deep_view() + seq![s@],
{
    let ghost before = list.deep_view();
    let ghost view = s@;
    list.push(s);
    assert(list.deep_view() =~= before + seq![view]);
}

fn add_all(list: &mut Vec<String>, more: &Vec<String>)
    ensures
        final(list).deep_view() == old(list).deep_view() + more.deep_view(),
{
    let ghost before = list.deep_view();
    let ghost all = more.deep_view();
    let mut i: usize = 0;
    assert(before + all.take(0) =~= before);
    while i < more.len()
        invariant
            i <= more@.len(),
            all == more.deep_view(),
            list.deep_view() == before + all.take(i as int),
        decreases more@.len() - i,
    {
        let ghost so_far = list.deep_view();
        list.push(more[i].clone());
        assert(list.deep_view() =~= so_far.push(more@[i as int]@));
        assert(so_far.push(more@[i as int]@) =~= before + all.take(i + 1));
        i += 1;
    }
    assert(all.take(i as int) =~= all);
}

fn describe_coach(c: &FormationCoach) -> (r: String)
    ensures
        r@ == coach_words(c.deep_view()),
{
    let mut details: Vec<String> = Vec::new();
    details.push(map_vehicle_type(c.type_code.as_str()).to_owned());
    let ghost first = seq![vehicle_label(c.deep_view().type_code)];
    assert(details.deep_view() =~= first);
    match c.sector {
        Some(sector) => {
            let mut s = "sector ".to_owned();
            s.push(sector);
            assert(s@ =~= "sector "@ + seq![sector]);
            add_text(&mut details, s);
        },
        None => {
            assert(first + sector_words(None) =~= first);
        },
    }
    let ghost second = details.deep_view();
    if c.no_pass_left {
        add_text(&mut details, "no passage to previous coach".to_owned());
    } else {
        assert(second + Seq::<Seq<char>>::empty() =~= second);
    }
    let ghost third = details.deep_view();
    if c.no_pass_right {
        add_text(&mut details, "no passage to next coach".to_owned());
    } else {
        assert(third + Seq::<Seq<char>>::empty() =~= third);
    }
    add_all(&mut details, &describe_services(&c.services));
    assert(details.deep_view() == details_of(c.deep_view()));
    let mut words = coach_label(c);
    words.append(" (");
    let listed = text::join(&details, ", ");
    words.append(listed.as_str());
    words.append(")");
    words
}

/// Coaches in words.
pub open spec fn all_coach_words(s: Seq<FormationCoachView>) -> Seq<Seq<char>> {
    Seq::new(s.len(), |i: int| coach_words(s[i]))
}

/// Coaches in words.
fn describe_coaches(v: &Vec<FormationCoach>) -> (r: Vec<String>)
    ensures
        r.deep_view() == all_coach_words(v.deep_view()),
{
    let mut out: Vec<String> = Vec::new();
    let mut i: usize = 0;
    while i < v.len()
        invariant
            i <= v@.len(),
            out@.len() == i,
            forall|k: int|
                0 <= k < i ==> (#[trigger] out@[k])@ == all_coach_words(v.deep_view())[k],
        decreases v@.len() - i,
    {
        assert(v.deep_view()[i as int] == v@[i as int].deep_view());
        out.push(describe_coach(&v[i]));
        i += 1;
    }
    assert(out.deep_view() =~= all_coach_words(v.deep_view()));
    out
}

/// Characters as texts.
pub open spec fn char_texts(chars: Seq<char>) -> Seq<Seq<char>> {
    Seq::new(chars.len(), |i: int| seq![chars[i]])
}

fn texts_of_chars(chars: &Vec<char>) -> (r: Vec<String>)
    ensures
        r.deep_view() == char_texts(chars@),
{
    let mut out: Vec<String> = Vec::new();
    let mut i: usize = 0;
    while i < chars.len()
        invariant
            i <= chars@.len(),
            out@.len() == i,
            forall|k: int| 0 <= k < i ==> (#[trigger] out@[k])@ == seq![chars@[k]],
        decreases chars@.len() - i,
    {
        out.push(text::text_of_char(chars[i]));
        i += 1;
    }
    assert(out.deep_view() =~= char_texts(chars@));
    out
}

/// A train in words.
pub open spec fn readable_text(
    coaches: Seq<FormationCoachView>,
    markers: Seq<char>,
    front: nat,
    rear: nat,
) -> Seq<char> {
    let sectors = if markers.len() == 0 {
        Seq::empty()
    } else {
        "Platform sectors seen: "@ + text::joined(text::uniques(char_texts(markers)), ", "@)
            + ". "@
    };
    sectors + "Coaches front->rear: "@ + text::joined(all_coach_words(coaches), " -> "@) + ". "@
        + "Padding coaches: front "@ + text::decimal(front) + ", rear "@ + text::decimal(rear)
        + "."@
}

fn render_readable_summary(
    coaches: &Vec<FormationCoach>,
    markers: &Vec<char>,
    front: usize,
    rear: usize,
) -> (r: String)
    ensures
        r@ == readable_text(coaches.deep_view(), markers@, front as nat, rear as nat),
{
    let mut s = String::new();
    if markers.len() > 0 {
        s = "Platform sectors seen: ".to_owned();
        let seen = text::keep_unique(&texts_of_chars(markers));
        let listed = text::join(&seen, ", ");
        s.append(listed.as_str());
        s.append(". ");
    } else {
        assert(s@ =~= Seq::empty());
    }
    s.append("Coaches front->rear: ");
    let words = text::join(&describe_coaches(coaches), " -> ");
    s.append(words.as_str());
    s.append(". ");
    s.append("Padding coaches: front ");
    let a = text::write_decimal(front as u64);
    s.append(a.as_str());
    s.append(", rear ");
    let b = text::write_decimal(rear as u64);
    s.append(b.as_str());
    s.append(".");
    s
}

/// A coach in the diagram.
pub open spec fn coach_drawing(c: FormationCoachView) -> Seq<char> {
    let services = if c.services.len() > 0 {
        " "@ + text::joined(c.services, "+"@)
    } else {
        Seq::empty()
    };
    let sector = match c.sector {
        Some(s) => " @"@ + seq![s],
        None => Seq::empty(),
    };
    let left = if c.no_pass_left {
        "("@
    } else {
        Seq::empty()
    };
    let right = if c.no_pass_right {
        ")"@
    } else {
        Seq::empty()
    };
    left + "|"@ + label_of(c) + services + sector + "|"@ + right
}

fn draw_coach(c: &FormationCoach) -> (r: String)
    ensures
        r@ == coach_drawing(c.deep_view()),
{
    let mut s = if c.no_pass_left {
        "(".to_owned()
    } else {
        let empty = String::new();
        assert(empty@ =~= Seq::empty());
        empty
    };
    s.append("|");
    let label = coach_label(c);
    s.append(label.as_str());
    let ghost a = s@;
    if c.services.len() > 0 {
        s.append(" ");
        let listed = text::join(&c.services, "+");
        s.append(listed.as_str());
        assert(s@ =~= a + (" "@ + text::joined(c.deep_view().services, "+"@)));
    } else {
        assert(a + Seq::<char>::empty() =~= a);
    }
    let ghost b = s@;
    match c.sector {
        Some(sector) => {
            s.append(" @");
            s.push(sector);
            assert(s@ =~= b + (" @"@ + seq![sector]));
        },
        None => {
            assert(b + Seq::<char>::empty() =~= b);
        },
    }
    s.append("|");
    let ghost d = s@;
    if c.no_pass_right {
        s.append(")");
    } else {
        assert(d + Seq::<char>::empty() =~= d);
    }
    s
}

/// Coaches in the diagram.
pub open spec fn drawings(s: Seq<FormationCoachView>) -> Seq<Seq<char>> {
    Seq::new(s.len(), |i: int| coach_drawing(s[i]))
}

/// Coaches in the diagram.
fn draw_coaches(v: &Vec<FormationCoach>) -> (r: Vec<String>)
    ensures
        r.deep_view() == drawings(v.deep_view()),
{
    let mut out: Vec<String> = Vec::new();
    let mut i: usize = 0;
    while i < v.len()
        invariant
            i <= v@.len(),
            out@.len() == i,
            forall|k: int|
                0 <= k < i ==> (#[trigger] out@[k])@ == drawings(v.deep_view())[k],
        decreases v@.len() - i,
    {
        assert(v.deep_view()[i as int] == v@[i as int].deep_view());
        out.push(draw_coach(&v[i]));
        i += 1;
    }
    assert(out.deep_view() =~= drawings(v.deep_view()));
    out
}

/// A train as a diagram.
pub open spec fn diagram_of(coaches: Seq<FormationCoachView>) -> Seq<char> {
    text::joined(drawings(coaches), " -> "@)
}

fn render_diagram(coaches: &Vec<FormationCoach>) -> (r: String)
    ensures
        r@ == diagram_of(coaches.deep_view()),
{
    text::join(&draw_coaches(coaches), " -> ")
}

// ---------------------------------------------------------------------------
// Legend
// ---------------------------------------------------------------------------

/// The codes of the vehicle types of coaches.
pub open spec fn type_codes(s: Seq<FormationCoachView>) -> Seq<Seq<char>> {
    Seq::new(s.len(), |i: int| text::uppered(s[i].type_code))
}

/// The codes of the vehicle types of coaches.
fn collect_type_codes(v: &Vec<FormationCoach>) -> (r: Vec<String>)
    ensures
        r.deep_view() == type_codes(v.deep_view()),
{
    let mut out: Vec<String> = Vec::new();
    let mut i: usize = 0;
    while i < v.len()
        invariant
            i <= v@.len(),
            out@.len() == i,
            forall|k: int|
                0 <= k < i ==> (#[trigger] out@[k])@ == type_codes(v.deep_view())[k],
        decreases v@.len() - i,
    {
        assert(v.deep_view()[i as int] == v@[i as int].deep_view());
        out.push(text::to_upper(v[i].type_code.as_str()));
        i += 1;
    }
    assert(out.deep_view() =~= type_codes(v.deep_view()));
    out
}

/// The codes of the services of coaches.
pub open spec fn service_codes(coaches: Seq<FormationCoachView>) -> Seq<Seq<char>>
    decreases coaches.len(),
{
    if coaches.len() == 0 {
        Seq::empty()
    } else {
        service_codes(coaches.drop_last()) + text::all_uppered(coaches.last().services)
    }
}

fn collect_service_codes(coaches: &Vec<FormationCoach>) -> (r: Vec<String>)
    ensures
        r.deep_view() == service_codes(coaches.deep_view()),
{
    let ghost all = coaches.deep_view();
    let mut out: Vec<String> = Vec::new();
    let mut i: usize = 0;
    assert(out.deep_view() =~= service_codes(all.take(0)));
    while i < coaches.len()
        invariant
            i <= coaches@.len(),
            all == coaches.deep_view(),
            out.deep_view() == service_codes(all.take(i as int)),
        decreases coaches@.len() - i,
    {
        assert(all.take(i + 1).drop_last() =~= all.take(i as int));
        assert(all.take(i + 1).last() == coaches@[i as int].deep_view());
        add_all(&mut out, &text::upper_all(&coaches[i].services));
        i += 1;
    }
    assert(all.take(i as int) =~= all);
    out
}

/// An entry for a code of a vehicle type.
pub open spec fn type_entry(code: Seq<char>) -> Seq<char> {
    code + " = "@ + vehicle_label(code)
}

fn write_type_entry(code: &str) -> (r: String)
    ensures
        r@ == type_entry(code@),
{
    let mut s = code.to_owned();
    s.append(" = ");
    s.append(map_vehicle_type(code));
    s
}

/// An entry for a code of a service.
pub open spec fn service_entry(code: Seq<char>) -> Seq<char> {
    code + " = "@ + service_text(code)
}

fn write_service_entry(code: &str) -> (r: String)
    ensures
        r@ == service_entry(code@),
{
    let mut s = code.to_owned();
    s.append(" = ");
    let meaning = service_description(code);
    s.append(meaning.as_str());
    s
}

/// Entries for codes of vehicle types.
pub open spec fn type_entries(s: Seq<Seq<char>>) -> Seq<Seq<char>> {
    Seq::new(s.len(), |i: int| type_entry(s[i]))
}

/// Entries for codes of vehicle types.
fn write_type_entries(v: &Vec<String>) -> (r: Vec<String>)
    ensures
        r.deep_view() == type_entries(v.deep_view()),
{
    let mut out: Vec<String> = Vec::new();
    let mut i: usize = 0;
    while i < v.len()
        invariant
            i <= v@.len(),
            out@.len() == i,
            forall|k: int|
                0 <= k < i ==> (#[trigger] out@[k])@ == type_entries(v.deep_view())[k],
        decreases v@.len() - i,
    {
        assert(v.deep_view()[i as int] == v@[i as int].deep_view());
        out.push(write_type_entry(v[i].as_str()));
        i += 1;
    }
    assert(out.deep_view() =~= type_entries(v.deep_view()));
    out
}

/// Entries for codes of services.
pub open spec fn service_entries(s: Seq<Seq<char>>) -> Seq<Seq<char>> {
    Seq::new(s.len(), |i: int| service_entry(s[i]))
}

/// Entries for codes of services.
fn write_service_entries(v: &Vec<String>) -> (r: Vec<String>)
    ensures
        r.deep_view() == service_entries(v.deep_view()),
{
    let mut out: Vec<String> = Vec::new();
    let mut i: usize = 0;
    while i < v.len()
        invariant
            i <= v@.len(),
            out@.len() == i,
            forall|k: int|
                0 <= k < i ==> (#[trigger] out@[k])@ == service_entries(v.deep_view())[k],
        decreases v@.len() - i,
    {
        assert(v.deep_view()[i as int] == v@[i as int].deep_view());
        out.push(write_service_entry(v[i].as_str()));
        i += 1;
    }
    assert(out.deep_view() =~= service_entries(v.deep_view()));
    out
}

/// Some coach stands at a known sector.
pub open spec fn any_sector(coaches: Seq<FormationCoachView>) -> bool {
    exists|i: int| 0 <= i < coaches.len() && (#[trigger] coaches[i]).sector is Some
}

fn has_any_sector(coaches: &Vec<FormationCoach>) -> (r: bool)
    ensures
        r == any_sector(coaches.deep_view()),
{
    let mut i: usize = 0;
    while i < coaches.len()
        invariant
            i <= coaches@.len(),
            forall|k: int| 0 <= k < i ==> (#[trigger] coaches.deep_view()[k]).sector is None,
        decreases coaches@.len() - i,
    {
        assert(coaches.deep_view()[i as int].sector == coaches@[i as int].sector);
        if coaches[i].sector.is_some() {
            return true;
        }
        i += 1;
    }
    false
}

/// What the diagram means: its signs, then the codes in it, each once and in order.
pub open spec fn legend_of(coaches: Seq<FormationCoachView>) -> Seq<Seq<char>> {
    seq![
        "-> = next coach toward rear"@,
        "( ... ) = no passage at one end of the marked coach"@,
    ] + remark(
        any_sector(coaches),
        "@X = platform sector marker near that coach (X = A/B/C/...)"@,
    ) + order::sorted::<String>(type_entries(text::uniques(type_codes(coaches)))) + order::sorted::<
        String,
    >(service_entries(text::uniques(service_codes(coaches))))
}

fn render_legend(coaches: &Vec<FormationCoach>) -> (r: Vec<String>)
    ensures
        r.deep_view() == legend_of(coaches.deep_view()),
{
    let mut legend: Vec<String> = Vec::new();
    legend.push("-> = next coach toward rear".to_owned());
    legend.push("( ... ) = no passage at one end of the marked coach".to_owned());
    let ghost signs = seq![
        "-> = next coach toward rear"@,
        "( ... ) = no passage at one end of the marked coach"@,
    ];
    assert(legend.deep_view() =~= signs);
    if has_any_sector(coaches) {
        add_text(
            &mut legend,
            "@X = platform sector marker near that coach (X = A/B/C/...)".to_owned(),
        );
    } else {
        assert(signs + Seq::<Seq<char>>::empty() =~= signs);
    }
    let types = text::keep_unique(&collect_type_codes(coaches));
    add_all(&mut legend, &order::sort(write_type_entries(&types)));
    let services = text::keep_unique(&collect_service_codes(coaches));
    add_all(&mut legend, &order::sort(write_service_entries(&services)));
    legend
}

// ---------------------------------------------------------------------------
// Data
// ---------------------------------------------------------------------------

/// A sector as a text, if it is known.
pub open spec fn sector_text(sector: Option<char>) -> Option<Seq<char>> {
    match sector {
        Some(c) => Some(seq![c]),
        None => None,
    }
}

fn write_sector(sector: Option<char>) -> (r: Option<String>)
    ensures
        r.deep_view() == sector_text(sector),
{
    match sector {
        Some(c) => Some(text::text_of_char(c)),
        None => None,
    }
}

/// A coach as data.
pub open spec fn coach_data(c: FormationCoachView) -> WagonFormationCoachView {
    WagonFormationCoachView {
        id: label_of(c),
        vehicle_type: text::uppered(c.type_code),
        class_label: vehicle_label(c.type_code),
        sector: sector_text(c.sector),
        services: text::all_uppered(c.services),
        no_passage_prev: c.no_pass_left,
        no_passage_next: c.no_pass_right,
    }
}

fn build_coach_data(c: &FormationCoach) -> (r: WagonFormationCoach)
    ensures
        r.deep_view() == coach_data(c.deep_view()),
{
    WagonFormationCoach {
        id: coach_label(c),
        vehicle_type: text::to_upper(c.type_code.as_str()),
        class_label: map_vehicle_type(c.type_code.as_str()).to_owned(),
        sector: write_sector(c.sector),
        services: text::upper_all(&c.services),
        no_passage_prev: c.no_pass_left,
        no_passage_next: c.no_pass_right,
    }
}

/// Coaches as data.
pub open spec fn all_coach_data(s: Seq<FormationCoachView>) -> Seq<WagonFormationCoachView> {
    Seq::new(s.len(), |i: int| coach_data(s[i]))
}

/// Coaches as data.
fn build_all_coach_data(v: &Vec<FormationCoach>) -> (r: Vec<WagonFormationCoach>)
    ensures
        r.deep_view() == all_coach_data(v.deep_view()),
{
    let mut out: Vec<WagonFormationCoach> = Vec::new();
    let mut i: usize = 0;
    while i < v.len()
        invariant
            i <= v@.len(),
            out@.len() == i,
            forall|k: int|
                0 <= k < i ==> (#[trigger] out@[k]).deep_view() == all_coach_data(v.deep_view())[k],
        decreases v@.len() - i,
    {
        assert(v.deep_view()[i as int] == v@[i as int].deep_view());
        out.push(build_coach_data(&v[i]));
        i += 1;
    }
    assert(out.deep_view() =~= all_coach_data(v.deep_view()));
    out
}

/// The sectors of the coaches that have one, coach by coach.
pub open spec fn coach_sectors(coaches: Seq<FormationCoachView>) -> Seq<Seq<char>>
    decreases coaches.len(),
{
    if coaches.len() == 0 {
        Seq::empty()
    } else {
        match coaches.last().sector {
            Some(c) => coach_sectors(coaches.drop_last()).push(seq![c]),
            None => coach_sectors(coaches.drop_last()),
        }
    }
}

fn collect_coach_sectors(coaches: &Vec<FormationCoach>) -> (r: Vec<String>)
    ensures
        r.deep_view() == coach_sectors(coaches.deep_view()),
{
    let ghost all = coaches.deep_view();
    let mut out: Vec<String> = Vec::new();
    let mut i: usize = 0;
    assert(out.deep_view() =~= coach_sectors(all.take(0)));
    while i < coaches.len()
        invariant
            i <= coaches@.len(),
            all == coaches.deep_view(),
            out.deep_view() == coach_sectors(all.take(i as int)),
        decreases coaches@.len() - i,
    {
        assert(all.take(i + 1).drop_last() =~= all.take(i as int));
        assert(all.take(i + 1).last() == coaches@[i as int].deep_view());
        match coaches[i].sector {
            Some(c) => {
                let ghost before = out.deep_view();
                out.push(text::text_of_char(c));
                assert(out.deep_view() =~= before.push(seq![c]));
            },
            None => {},
        }
        i += 1;
    }
    assert(all.take(i as int) =~= all);
    out
}

/// A train as data.
pub open spec fn parsed_of(
    coaches: Seq<FormationCoachView>,
    markers: Seq<char>,
    front: usize,
    rear: usize,
) -> WagonFormationParsedView {
    WagonFormationParsedView {
        coaches: all_coach_data(coaches),
        padding: WagonFormationPadding { front, rear },
        sectors_seen: text::uniques(char_texts(markers) + coach_sectors(coaches)),
    }
}

fn build_parsed_summary(
    coaches: &Vec<FormationCoach>,
    markers: &Vec<char>,
    front: usize,
    rear: usize,
) -> (r: WagonFormationParsed)
    ensures
        r.deep_view() == parsed_of(coaches.deep_view(), markers@, front, rear),
{
    let mut sectors = texts_of_chars(markers);
    add_all(&mut sectors, &collect_coach_sectors(coaches));
    WagonFormationParsed {
        coaches: build_all_coach_data(coaches),
        padding: WagonFormationPadding { front, rear },
        sectors_seen: text::keep_unique(&sectors),
    }
}

/// The label of the first coach at a sector.
pub open spec fn first_at(coaches: Seq<FormationCoachView>, sector: Seq<char>) -> Seq<char>
    decreases coaches.len(),
{
    if coaches.len() == 0 {
        Seq::empty()
    } else if sector_text(coaches[0].sector) == Some(sector) {
        label_of(coaches[0])
    } else {
        first_at(coaches.drop_first(), sector)
    }
}

/// The label of the last coach at a sector.
pub open spec fn last_at(coaches: Seq<FormationCoachView>, sector: Seq<char>) -> Seq<char>
    decreases coaches.len(),
{
    if coaches.len() == 0 {
        Seq::empty()
    } else if sector_text(coaches.last().sector) == Some(sector) {
        label_of(coaches.last())
    } else {
        last_at(coaches.drop_last(), sector)
    }
}

fn stands_at(c: &FormationCoach, sector: &str) -> (r: bool)
    ensures
        r == (sector_text(c.deep_view().sector) == Some(sector@)),
{
    match write_sector(c.sector) {
        Some(s) => text::same(s.as_str(), sector),
        None => false,
    }
}

fn find_first_at(coaches: &Vec<FormationCoach>, sector: &str) -> (r: String)
    ensures
        r@ == first_at(coaches.deep_view(), sector@),
{
    let ghost all = coaches.deep_view();
    let mut i: usize = 0;
    assert(all.skip(0) =~= all);
    while i < coaches.len()
        invariant
            i <= coaches@.len(),
            all == coaches.deep_view(),
            first_at(all, sector@) == first_at(all.skip(i as int), sector@),
        decreases coaches@.len() - i,
    {
        assert(all.skip(i as int)[0] == coaches@[i as int].deep_view());
        assert(all.skip(i as int).drop_first() =~= all.skip(i + 1));
        if stands_at(&coaches[i], sector) {
            return coach_label(&coaches[i]);
        }
        i += 1;
    }
    let r = String::new();
    assert(r@ =~= Seq::empty());
    r
}

fn find_last_at(coaches: &Vec<FormationCoach>, sector: &str) -> (r: String)
    ensures
        r@ == last_at(coaches.deep_view(), sector@),
{
    let ghost all = coaches.deep_view();
    let mut i: usize = coaches.len();
    assert(all.take(i as int) =~= all);
    while i > 0
        invariant
            i <= coaches@.len(),
            all == coaches.deep_view(),
            last_at(all, sector@) == last_at(all.take(i as int), sector@),
        decreases i,
    {
        assert(all.take(i as int).last() == coaches@[i - 1].deep_view());
        assert(all.take(i as int).drop_last() =~= all.take(i - 1));
        if stands_at(&coaches[i - 1], sector) {
            return coach_label(&coaches[i - 1]);
        }
        i -= 1;
    }
    let r = String::new();
    assert(r@ =~= Seq::empty());
    r
}

/// The coaches at a sector, from the first to the last.
pub open spec fn range_at(coaches: Seq<FormationCoachView>, sector: Seq<char>) -> WagonFormationSectorRangeView {
    WagonFormationSectorRangeView {
        sector,
        from_coach: first_at(coaches, sector),
        to_coach: last_at(coaches, sector),
    }
}

/// The coaches at each sector, by where the sector is first reached.
pub open spec fn ranges_of(coaches: Seq<FormationCoachView>) -> Seq<WagonFormationSectorRangeView> {
    let sectors = text::uniques(coach_sectors(coaches));
    Seq::new(sectors.len(), |i: int| range_at(coaches, sectors[i]))
}

fn build_sector_ranges(coaches: &Vec<FormationCoach>) -> (r: Vec<WagonFormationSectorRange>)
    ensures
        r.deep_view() == ranges_of(coaches.deep_view()),
{
    let sectors = text::keep_unique(&collect_coach_sectors(coaches));
    let ghost all = ranges_of(coaches.deep_view());
    let mut out: Vec<WagonFormationSectorRange> = Vec::new();
    let mut i: usize = 0;
    while i < sectors.len()
        invariant
            i <= sectors@.len(),
            sectors.deep_view() == text::uniques(coach_sectors(coaches.deep_view())),
            all == ranges_of(coaches.deep_view()),
            out@.len() == i,
            forall|k: int| 0 <= k < i ==> (#[trigger] out@[k]).deep_view() == all[k],
        decreases sectors@.len() - i,
    {
        assert(sectors.deep_view()[i as int] == sectors@[i as int]@);
        out.push(
            WagonFormationSectorRange {
                sector: sectors[i].clone(),
                from_coach: find_first_at(coaches, sectors[i].as_str()),
                to_coach: find_last_at(coaches, sectors[i].as_str()),
            },
        );
        i += 1;
    }
    assert(out.deep_view() =~= all);
    out
}

/// The labels of the coaches with a feature.
pub open spec fn labels_with(coaches: Seq<FormationCoachView>, feature: CoachFeature) -> Seq<
    Seq<char>,
>
    decreases coaches.len(),
{
    if coaches.len() == 0 {
        Seq::empty()
    } else {
        let before = labels_with(coaches.drop_last(), feature);
        if has_feature(coaches.last(), feature) {
            before.push(label_of(coaches.last()))
        } else {
            before
        }
    }
}

fn collect_labels(coaches: &Vec<FormationCoach>, feature: CoachFeature) -> (r: Vec<String>)
    ensures
        r.deep_view() == labels_with(coaches.deep_view(), feature),
{
    let ghost all = coaches.deep_view();
    let mut out: Vec<String> = Vec::new();
    let mut i: usize = 0;
    assert(out.deep_view() =~= labels_with(all.take(0), feature));
    while i < coaches.len()
        invariant
            i <= coaches@.len(),
            all == coaches.deep_view(),
            out.deep_view() == labels_with(all.take(i as int), feature),
        decreases coaches@.len() - i,
    {
        assert(all.take(i + 1).drop_last() =~= all.take(i as int));
        assert(all.take(i + 1).last() == coaches@[i as int].deep_view());
        if check_feature(&coaches[i], feature) {
            let ghost before = out.deep_view();
            let label = coach_label(&coaches[i]);
            let ghost view = label@;
            out.push(label);
            assert(out.deep_view() =~= before.push(view));
        }
        i += 1;
    }
    assert(all.take(i as int) =~= all);
    out
}

// ---------------------------------------------------------------------------
// For riders
// ---------------------------------------------------------------------------

/// A coach at a known sector; with a label, only that coach.
pub open spec fn suits(c: WagonFormationCoachView, label: Option<Seq<char>>) -> bool {
    c.sector is Some && (label is Some ==> c.id == label->0)
}

/// The first coach that suits.
pub open spec fn first_suited(
    coaches: Seq<WagonFormationCoachView>,
    label: Option<Seq<char>>,
) -> Option<WagonFormationCoachView>
    decreases coaches.len(),
{
    if coaches.len() == 0 {
        None
    } else if suits(coaches[0], label) {
        Some(coaches[0])
    } else {
        first_suited(coaches.drop_first(), label)
    }
}

/// The coach to recommend: the first accessible one at a known sector, or else the first
/// one at a known sector.
pub open spec fn preferred_coach(
    coaches: Seq<WagonFormationCoachView>,
    accessible: Seq<Seq<char>>,
) -> Option<WagonFormationCoachView>
    decreases accessible.len(),
{
    if accessible.len() == 0 {
        first_suited(coaches, None)
    } else {
        match first_suited(coaches, Some(accessible[0])) {
            Some(c) => Some(c),
            None => preferred_coach(coaches, accessible.drop_first()),
        }
    }
}

fn find_first_suited<'a>(coaches: &'a Vec<WagonFormationCoach>, label: Option<&str>) -> (r: Option<
    &'a WagonFormationCoach,
>)
    ensures
        match r {
            Some(c) => first_suited(coaches.deep_view(), label.deep_view()) == Some(c.deep_view()),
            None => first_suited(coaches.deep_view(), label.deep_view()) is None,
        },
{
    let ghost all = coaches.deep_view();
    let ghost wanted = label.deep_view();
    let mut i: usize = 0;
    assert(all.skip(0) =~= all);
    while i < coaches.len()
        invariant
            i <= coaches@.len(),
            all == coaches.deep_view(),
            wanted == label.deep_view(),
            first_suited(all, wanted) == first_suited(all.skip(i as int), wanted),
        decreases coaches@.len() - i,
    {
        assert(all.skip(i as int)[0] == coaches@[i as int].deep_view());
        assert(all.skip(i as int).drop_first() =~= all.skip(i + 1));
        let named = match label {
            Some(l) => text::same(coaches[i].id.as_str(), l),
            None => true,
        };
        if named && coaches[i].sector.is_some() {
            return Some(&coaches[i]);
        }
        i += 1;
    }
    None
}

fn find_preferred<'a>(coaches: &'a Vec<WagonFormationCoach>, accessible: &Vec<String>) -> (r: Option<
    &'a WagonFormationCoach,
>)
    ensures
        match r {
            Some(c) => preferred_coach(coaches.deep_view(), accessible.deep_view()) == Some(
                c.deep_view(),
            ),
            None => preferred_coach(coaches.deep_view(), accessible.deep_view()) is None,
        },
{
    let ghost all = accessible.deep_view();
    let mut i: usize = 0;
    assert(all.skip(0) =~= all);
    while i < accessible.len()
        invariant
            i <= accessible@.len(),
            all == accessible.deep_view(),
            preferred_coach(coaches.deep_view(), all) == preferred_coach(
                coaches.deep_view(),
                all.skip(i as int),
            ),
        decreases accessible@.len() - i,
    {
        assert(all.skip(i as int)[0] == accessible@[i as int]@);
        assert(all.skip(i as int).drop_first() =~= all.skip(i + 1));
        match find_first_suited(coaches, Some(accessible[i].as_str())) {
            Some(c) => return Some(c),
            None => {},
        }
        i += 1;
    }
    find_first_suited(coaches, None)
}

/// The advice where to board a coach.
pub open spec fn advice(c: WagonFormationCoachView) -> Seq<char> {
    let head = "Go to sector "@ + c.sector->0 + " for coach "@ + c.id;
    if c.services.len() == 0 {
        head + "."@
    } else {
        head + " ("@ + text::joined(service_texts(c.services), ", "@) + ")"@
    }
}

/// The advice where to board a train.
pub open spec fn hint_of(coaches: Seq<WagonFormationCoachView>, accessible: Seq<Seq<char>>) -> Seq<
    char,
> {
    match preferred_coach(coaches, accessible) {
        Some(c) => advice(c),
        None => "Use sector markers shown for your coach."@,
    }
}

proof fn lemma_first_suited(coaches: Seq<WagonFormationCoachView>, label: Option<Seq<char>>)
    ensures
        first_suited(coaches, label) matches Some(c) ==> c.sector is Some,
    decreases coaches.len(),
{
    if coaches.len() > 0 && !suits(coaches[0], label) {
        lemma_first_suited(coaches.drop_first(), label);
    }
}

proof fn lemma_preferred(coaches: Seq<WagonFormationCoachView>, accessible: Seq<Seq<char>>)
    ensures
        preferred_coach(coaches, accessible) matches Some(c) ==> c.sector is Some,
    decreases accessible.len(),
{
    if accessible.len() == 0 {
        lemma_first_suited(coaches, None);
    } else {
        lemma_first_suited(coaches, Some(accessible[0]));
        lemma_preferred(coaches, accessible.drop_first());
    }
}

fn build_boarding_hint(parsed: &WagonFormationParsed, accessible: &Vec<String>) -> (r: String)
    ensures
        r@ == hint_of(parsed.deep_view().coaches, accessible.deep_view()),
{
    proof {
        lemma_preferred(parsed.deep_view().coaches, accessible.deep_view());
    }
    match find_preferred(&parsed.coaches, accessible) {
        Some(c) => {
            let mut s = "Go to sector ".to_owned();
            match &c.sector {
                Some(sector) => s.append(sector.as_str()),
                None => {},
            }
            s.append(" for coach ");
            s.append(c.id.as_str());
            if c.services.len() == 0 {
                s.append(".");
            } else {
                s.append(" (");
                let listed = text::join(&describe_services(&c.services), ", ");
                s.append(listed.as_str());
                s.append(")");
            }
            s
        },
        None => "Use sector markers shown for your coach.".to_owned(),
    }
}

/// The coaches at a sector, in words.
pub open spec fn range_words(range: WagonFormationSectorRangeView) -> Seq<char> {
    if range.from_coach == range.to_coach {
        range.sector + ": "@ + range.from_coach
    } else {
        range.sector + ": "@ + range.from_coach + ".."@ + range.to_coach
    }
}

fn describe_range(range: &WagonFormationSectorRange) -> (r: String)
    ensures
        r@ == range_words(range.deep_view()),
{
    let mut s = range.sector.clone();
    s.append(": ");
    s.append(range.from_coach.as_str());
    if !text::same(range.from_coach.as_str(), range.to_coach.as_str()) {
        s.append("..");
        s.append(range.to_coach.as_str());
    }
    s
}

/// The coaches at sectors, in words.
pub open spec fn all_range_words(s: Seq<WagonFormationSectorRangeView>) -> Seq<Seq<char>> {
    Seq::new(s.len(), |i: int| range_words(s[i]))
}

/// The coaches at sectors, in words.
fn describe_ranges(v: &Vec<WagonFormationSectorRange>) -> (r: Vec<String>)
    ensures
        r.deep_view() == all_range_words(v.deep_view()),
{
    let mut out: Vec<String> = Vec::new();
    let mut i: usize = 0;
    while i < v.len()
        invariant
            i <= v@.len(),
            out@.len() == i,
            forall|k: int|
                0 <= k < i ==> (#[trigger] out@[k])@ == all_range_words(v.deep_view())[k],
        decreases v@.len() - i,
    {
        assert(v.deep_view()[i as int] == v@[i as int].deep_view());
        out.push(describe_range(&v[i]));
        i += 1;
    }
    assert(out.deep_view() =~= all_range_words(v.deep_view()));
    out
}

/// The services of the first coach with a label.
pub open spec fn services_under(coaches: Seq<WagonFormationCoachView>, label: Seq<char>) -> Seq<
    Seq<char>,
>
    decreases coaches.len(),
{
    if coaches.len() == 0 {
        Seq::empty()
    } else if coaches[0].id == label {
        coaches[0].services
    } else {
        services_under(coaches.drop_first(), label)
    }
}

/// An accessible coach in words.
pub open spec fn access_words(label: Seq<char>, coaches: Seq<WagonFormationCoachView>) -> Seq<char> {
    let services = text::joined(services_under(coaches, label), "+"@);
    if services.len() == 0 {
        label
    } else {
        label + " ("@ + services + ")"@
    }
}

fn describe_access(label: &str, coaches: &Vec<WagonFormationCoach>) -> (r: String)
    ensures
        r@ == access_words(label@, coaches.deep_view()),
{
    let ghost all = coaches.deep_view();
    let mut services = String::new();
    let mut i: usize = 0;
    let mut found = false;
    assert(all.skip(0) =~= all);
    while i < coaches.len() && !found
        invariant
            i <= coaches@.len(),
            all == coaches.deep_view(),
            !found ==> services_under(all, label@) == services_under(all.skip(i as int), label@)
                && services@.len() == 0,
            found ==> services@ == text::joined(services_under(all, label@), "+"@),
        decreases coaches@.len() - i,
    {
        assert(all.skip(i as int)[0] == coaches@[i as int].deep_view());
        assert(all.skip(i as int).drop_first() =~= all.skip(i + 1));
        if text::same(coaches[i].id.as_str(), label) {
            services = text::join(&coaches[i].services, "+");
            found = true;
        }
        i += 1;
    }
    if services.as_str().is_empty() {
        label.to_owned()
    } else {
        let mut s = label.to_owned();
        s.append(" (");
        s.append(services.as_str());
        s.append(")");
        s
    }
}

/// Accessible coaches in words.
pub open spec fn all_access_words(s: Seq<Seq<char>>, coaches: Seq<WagonFormationCoachView>) -> Seq<Seq<char>> {
    Seq::new(s.len(), |i: int| access_words(s[i], coaches))
}

/// Accessible coaches in words.
fn describe_all_access(v: &Vec<String>, coaches: &Vec<WagonFormationCoach>) -> (r: Vec<String>)
    ensures
        r.deep_view() == all_access_words(v.deep_view(), coaches.deep_view()),
{
    let mut out: Vec<String> = Vec::new();
    let mut i: usize = 0;
    while i < v.len()
        invariant
            i <= v@.len(),
            out@.len() == i,
            forall|k: int|
                0 <= k < i ==> (#[trigger] out@[k])@ == all_access_words(v.deep_view(), coaches.deep_view())[k],
        decreases v@.len() - i,
    {
        assert(v.deep_view()[i as int] == v@[i as int].deep_view());
        out.push(describe_access(v[i].as_str(), coaches));
        i += 1;
    }
    assert(out.deep_view() =~= all_access_words(v.deep_view(), coaches.deep_view()));
    out
}

/// A list, or the word for its absence.
pub open spec fn listed(items: Seq<Seq<char>>, sep: Seq<char>) -> Seq<char> {
    if items.len() == 0 {
        "none"@
    } else {
        text::joined(items, sep)
    }
}

fn list_or_none(items: &Vec<String>, sep: &str) -> (r: String)
    ensures
        r@ == listed(items.deep_view(), sep@),
{
    if items.len() == 0 {
        "none".to_owned()
    } else {
        text::join(items, sep)
    }
}

/// A train for riders.
pub open spec fn display_of(
    coaches: Seq<WagonFormationCoachView>,
    ranges: Seq<WagonFormationSectorRangeView>,
    accessible: Seq<Seq<char>>,
    first_class: Seq<Seq<char>>,
    second_class: Seq<Seq<char>>,
    hint: Seq<char>,
    diagram: Seq<char>,
) -> Seq<char> {
    "Boarding hint: "@ + hint + "\nDirection: front -> rear\nSectors: "@ + listed(
        all_range_words(ranges),
        " | "@,
    ) + "\n2nd class: "@ + listed(second_class, ", "@) + "\n1st class: "@ + listed(
        first_class,
        ", "@,
    ) + "\nAccessible: "@ + listed(all_access_words(accessible, coaches), ", "@) + "\nDiagram: "@
        + diagram
}

fn render_human_display(
    parsed: &WagonFormationParsed,
    ranges: &Vec<WagonFormationSectorRange>,
    accessible: &Vec<String>,
    first_class: &Vec<String>,
    second_class: &Vec<String>,
    hint: &str,
    diagram: &str,
) -> (r: String)
    ensures
        r@ == display_of(
            parsed.deep_view().coaches,
            ranges.deep_view(),
            accessible.deep_view(),
            first_class.deep_view(),
            second_class.deep_view(),
            hint@,
            diagram@,
        ),
{
    let sectors = list_or_none(&describe_ranges(ranges), " | ");
    let second = list_or_none(second_class, ", ");
    let first = list_or_none(first_class, ", ");
    let access = list_or_none(&describe_all_access(accessible, &parsed.coaches), ", ");
    let mut s = "Boarding hint: ".to_owned();
    s.append(hint);
    s.append("\nDirection: front -> rear\nSectors: ");
    s.append(sectors.as_str());
    s.append("\n2nd class: ");
    s.append(second.as_str());
    s.append("\n1st class: ");
    s.append(first.as_str());
    s.append("\nAccessible: ");
    s.append(access.as_str());
    s.append("\nDiagram: ");
    s.append(diagram);
    s
}

/// The display of the coaches of a train.
pub open spec fn render_of(
    coaches: Seq<FormationCoachView>,
    markers: Seq<char>,
    front: usize,
    rear: usize,
) -> FormationRenderView {
    let parsed = parsed_of(coaches, markers, front, rear);
    let ranges = ranges_of(coaches);
    let accessible = labels_with(coaches, CoachFeature::Accessible);
    let first_class = labels_with(coaches, CoachFeature::FirstClass);
    let second_class = labels_with(coaches, CoachFeature::SecondClass);
    let hint = hint_of(parsed.coaches, accessible);
    let diagram = diagram_of(coaches);
    FormationRenderView {
        readable: readable_text(coaches, markers, front as nat, rear as nat),
        diagram,
        human_display: display_of(
            parsed.coaches,
            ranges,
            accessible,
            first_class,
            second_class,
            hint,
            diagram,
        ),
        boarding_hint: hint,
        legend: legend_of(coaches),
        parsed,
        sector_to_coach_range: ranges,
        accessible_coaches: accessible,
        first_class_coaches: first_class,
        second_class_coaches: second_class,
    }
}

/// The display of the train that a notation describes, if it has a coach that is no
/// padding.
pub open spec fn rendered(short: Seq<char>) -> Option<FormationRenderView> {
    let scan = coach::scanned(text::pieces(text::trimmed(short), CharSet::Only(',')));
    let coaches = coach::real_coaches(scan.coaches);
    if coaches.len() == 0 {
        None
    } else {
        Some(
            render_of(
                coaches,
                scan.markers,
                coach::front_padding(scan.coaches) as usize,
                coach::rear_padding(scan.coaches) as usize,
            ),
        )
    }
}

/// The display of the train that a notation describes.
pub fn render_formation_short_string(short: &str) -> (r: Option<FormationRender>)
    ensures
        r.deep_view() == rendered(short@),
{
    let trimmed = text::trim(short);
    let scan = coach::scan_train(trimmed.as_str());
    let coaches = coach::keep_real_coaches(&scan.coaches);
    if coaches.len() == 0 {
        return None;
    }
    let front: usize = coach::count_front_padding(&scan.coaches);
    let rear: usize = coach::count_rear_padding(&scan.coaches);
    let readable = render_readable_summary(&coaches, &scan.markers, front, rear);
    let diagram = render_diagram(&coaches);
    let legend = render_legend(&coaches);
    let parsed = build_parsed_summary(&coaches, &scan.markers, front, rear);
    let sector_to_coach_range = build_sector_ranges(&coaches);
    let accessible_coaches = collect_labels(&coaches, CoachFeature::Accessible);
    let first_class_coaches = collect_labels(&coaches, CoachFeature::FirstClass);
    let second_class_coaches = collect_labels(&coaches, CoachFeature::SecondClass);
    let boarding_hint = build_boarding_hint(&parsed, &accessible_coaches);
    let human_display = render_human_display(
        &parsed,
        &sector_to_coach_range,
        &accessible_coaches,
        &first_class_coaches,
        &second_class_coaches,
        boarding_hint.as_str(),
        diagram.as_str(),
    );
    Some(
        FormationRender {
            readable,
            diagram,
            human_display,
            boarding_hint,
            legend,
            parsed,
            sector_to_coach_range,
            accessible_coaches,
            first_class_coaches,
            second_class_coaches,
        },
    )
}

/// Each sector has one range, and there is a range for each sector at which a coach
/// stands.
pub proof fn law_sectors_have_one_range(coaches: Seq<FormationCoachView>)
    ensures
        forall|i: int, j: int|
            0 <= i < j < ranges_of(coaches).len() ==> (#[trigger] ranges_of(coaches)[i]).sector
                != (#[trigger] ranges_of(coaches)[j]).sector,
        forall|k: int|
            0 <= k < coaches.len() && (#[trigger] coaches[k]).sector is Some ==> exists|i: int|
                0 <= i < ranges_of(coaches).len() && (#[trigger] ranges_of(coaches)[i]).sector
                    == seq![coaches[k].sector->0],
{
    let sectors = text::uniques(coach_sectors(coaches));
    text::law_uniques_are_distinct(coach_sectors(coaches));
    assert forall|k: int|
        0 <= k < coaches.len() && (#[trigger] coaches[k]).sector is Some implies exists|i: int|
        0 <= i < ranges_of(coaches).len() && (#[trigger] ranges_of(coaches)[i]).sector == seq![
            coaches[k].sector->0,
        ] by {
        let x = seq![coaches[k].sector->0];
        lemma_coach_sectors(coaches, k);
        assert(sectors.contains(x));
        let i = choose|i: int| 0 <= i < sectors.len() && sectors[i] == x;
        assert(ranges_of(coaches)[i].sector == x);
    }
}

proof fn lemma_coach_sectors(coaches: Seq<FormationCoachView>, k: int)
    requires
        0 <= k < coaches.len(),
        coaches[k].sector is Some,
    ensures
        coach_sectors(coaches).contains(seq![coaches[k].sector->0]),
    decreases coaches.len(),
{
    let before = coach_sectors(coaches.drop_last());
    let x = seq![coaches[k].sector->0];
    if k < coaches.len() - 1 {
        lemma_coach_sectors(coaches.drop_last(), k);
        let m = choose|m: int| 0 <= m < before.len() && before[m] == x;
        assert(coach_sectors(coaches)[m] == x);
    } else {
        assert(coach_sectors(coaches)[before.len() as int] == x);
    }
}

/// A blank notation describes no train.
pub proof fn law_blank_notation_is_no_train(short: Seq<char>)
    requires
        text::trimmed(short).len() == 0,
    ensures
        rendered(short) is None,
{
    let t = text::trimmed(short);
    let parts = text::pieces(t, CharSet::Only(','));
    assert(t =~= Seq::empty());
    assert(parts =~= seq![Seq::<char>::empty()]);
    assert(parts.drop_last() =~= Seq::empty());
    let start = coach::scanned(parts.drop_last());
    let part = parts.last();
    assert(text::trimmed(part) =~= Seq::empty());
    assert(text::without(text::trimmed(part), CharSet::Either('[', ']')) =~= Seq::empty());
    let token = Seq::<char>::empty();
    assert(text::without(token, CharSet::Either('(', ')')) =~= token);
    assert(text::trimmed(token) =~= token);
    assert(text::cut(token, '#') is None);
    assert(text::cut(token, ':') is None);
    assert(coach::coach_of(token) is None);
    assert(coach::scanned(parts).coaches =~= Seq::empty());
}

/// Square brackets change nothing in the display of a train, wherever they stand in its
/// notation.
pub proof fn law_brackets_are_not_displayed(short: Seq<char>)
    ensures
        rendered(text::without(short, CharSet::Either('[', ']'))) == rendered(short),
{
    coach::law_brackets_change_nothing(short);
}

proof fn lemma_codes()
    ensures
        "1"@ == seq!['1'],
        "2"@ == seq!['2'],
        "12"@ == seq!['1', '2'],
        "CC"@ == seq!['C', 'C'],
        "FA"@ == seq!['F', 'A'],
        "WL"@ == seq!['W', 'L'],
        "WR"@ == seq!['W', 'R'],
        "W1"@ == seq!['W', '1'],
        "W2"@ == seq!['W', '2'],
        "LK"@ == seq!['L', 'K'],
        "D"@ == seq!['D'],
        "F"@ == seq!['F'],
        "K"@ == seq!['K'],
        "X"@ == seq!['X'],
        "BHP"@ == seq!['B', 'H', 'P'],
        "BZ"@ == seq!['B', 'Z'],
        "FZ"@ == seq!['F', 'Z'],
        "KW"@ == seq!['K', 'W'],
        "NF"@ == seq!['N', 'F'],
        "VH"@ == seq!['V', 'H'],
        "VR"@ == seq!['V', 'R'],
{
    reveal_strlit("1");
    reveal_strlit("2");
    reveal_strlit("12");
    reveal_strlit("CC");
    reveal_strlit("FA");
    reveal_strlit("WL");
    reveal_strlit("WR");
    reveal_strlit("W1");
    reveal_strlit("W2");
    reveal_strlit("LK");
    reveal_strlit("D");
    reveal_strlit("F");
    reveal_strlit("K");
    reveal_strlit("X");
    reveal_strlit("BHP");
    reveal_strlit("BZ");
    reveal_strlit("FZ");
    reveal_strlit("KW");
    reveal_strlit("NF");
    reveal_strlit("VH");
    reveal_strlit("VR");
    assert("1"@ =~= seq!['1']);
    assert("2"@ =~= seq!['2']);
    assert("12"@ =~= seq!['1', '2']);
    assert("CC"@ =~= seq!['C', 'C']);
    assert("FA"@ =~= seq!['F', 'A']);
    assert("WL"@ =~= seq!['W', 'L']);
    assert("WR"@ =~= seq!['W', 'R']);
    assert("W1"@ =~= seq!['W', '1']);
    assert("W2"@ =~= seq!['W', '2']);
    assert("LK"@ =~= seq!['L', 'K']);
    assert("D"@ =~= seq!['D']);
    assert("F"@ =~= seq!['F']);
    assert("K"@ =~= seq!['K']);
    assert("X"@ =~= seq!['X']);
    assert("BHP"@ =~= seq!['B', 'H', 'P']);
    assert("BZ"@ =~= seq!['B', 'Z']);
    assert("FZ"@ =~= seq!['F', 'Z']);
    assert("KW"@ =~= seq!['K', 'W']);
    assert("NF"@ =~= seq!['N', 'F']);
    assert("VH"@ =~= seq!['V', 'H']);
    assert("VR"@ =~= seq!['V', 'R']);
}


/// What the codes of vehicle types mean, whatever the case of their letters.
pub proof fn law_meanings_of_vehicle_types(code: Seq<char>)
    ensures
        ({
            let c = text::uppered(code);
            let label = vehicle_label(code);
            &&& c == seq!['1'] ==> label == "1st class"@
            &&& c == seq!['2'] ==> label == "2nd class"@
            &&& c == seq!['1', '2'] ==> label == "mixed 1st/2nd class"@
            &&& c == seq!['C', 'C'] ==> label == "couchette coach"@
            &&& c == seq!['F', 'A'] ==> label == "family coach"@
            &&& c == seq!['W', 'L'] ==> label == "sleeping coach"@
            &&& c == seq!['W', 'R'] ==> label == "restaurant coach"@
            &&& c == seq!['W', '1'] ==> label == "dining + 1st class"@
            &&& c == seq!['W', '2'] ==> label == "dining + 2nd class"@
            &&& c == seq!['L', 'K'] ==> label == "traction unit"@
            &&& c == seq!['D'] ==> label == "baggage coach"@
            &&& c == seq!['F'] ==> label == "fictitious padding coach"@
            &&& c == seq!['K'] ==> label == "classless coach"@
            &&& c == seq!['X'] ==> label == "stabled coach"@
            &&& c.len() > 2 || c.len() == 0 ==> label == "coach"@
        }),
{
    lemma_codes();
    assert("1"@.len() == 1 && "1"@[0] == '1');
    assert("2"@.len() == 1 && "2"@[0] == '2');
    assert("12"@.len() == 2 && "12"@[0] == '1' && "12"@[1] == '2');
    assert("CC"@.len() == 2 && "CC"@[0] == 'C' && "CC"@[1] == 'C');
    assert("FA"@.len() == 2 && "FA"@[0] == 'F' && "FA"@[1] == 'A');
    assert("WL"@.len() == 2 && "WL"@[0] == 'W' && "WL"@[1] == 'L');
    assert("WR"@.len() == 2 && "WR"@[0] == 'W' && "WR"@[1] == 'R');
    assert("W1"@.len() == 2 && "W1"@[0] == 'W' && "W1"@[1] == '1');
    assert("W2"@.len() == 2 && "W2"@[0] == 'W' && "W2"@[1] == '2');
    assert("LK"@.len() == 2 && "LK"@[0] == 'L' && "LK"@[1] == 'K');
    assert("D"@.len() == 1 && "D"@[0] == 'D');
    assert("F"@.len() == 1 && "F"@[0] == 'F');
    assert("K"@.len() == 1 && "K"@[0] == 'K');
    assert("X"@.len() == 1 && "X"@[0] == 'X');
}

/// What the codes of services mean, whatever the case of their letters. Any other code is
/// told as it is.
pub proof fn law_meanings_of_services(code: Seq<char>)
    ensures
        ({
            let c = text::uppered(code);
            let words = service_text(code);
            &&& c == seq!['B', 'H', 'P'] ==> words == "wheelchair spaces"@
            &&& c == seq!['B', 'Z'] ==> words == "business zone"@
            &&& c == seq!['F', 'Z'] ==> words == "family zone"@
            &&& c == seq!['K', 'W'] ==> words == "stroller area"@
            &&& c == seq!['N', 'F'] ==> words == "low-floor access"@
            &&& c == seq!['V', 'H'] ==> words == "bike spaces"@
            &&& c == seq!['V', 'R'] ==> words == "bike spaces (reservation required)"@
            &&& c.len() != 2 && c.len() != 3 ==> words == "special service ("@ + c + ")"@
        }),
{
    lemma_codes();
    let c = text::uppered(code);
    assert("BHP"@.len() == 3 && "BZ"@.len() == 2 && "FZ"@.len() == 2 && "KW"@.len() == 2
        && "NF"@.len() == 2 && "VH"@.len() == 2 && "VR"@.len() == 2);
}

/// A service for those who board with a wheelchair, a stroller or a bicycle, or without a
/// step.
pub open spec fn eases_access(code: Seq<char>) -> bool {
    let c = text::uppered(code);
    ||| c == seq!['B', 'H', 'P']
    ||| c == seq!['K', 'W']
    ||| c == seq!['N', 'F']
    ||| c == seq!['V', 'R']
    ||| c == seq!['V', 'H']
}

/// A coach with a service that eases access.
pub open spec fn offers_access(c: FormationCoachView) -> bool {
    exists|k: int| #![trigger c.services[k]] 0 <= k < c.services.len() && eases_access(c.services[k])
}

/// A coach of a class, by its type.
pub open spec fn is_of_class(c: FormationCoachView, class: char) -> bool {
    let code = text::uppered(c.type_code);
    ||| code == seq![class]
    ||| code == seq!['W', class]
    ||| code == seq!['1', '2']
}

/// One coach more is among the accessible ones, behind the others, exactly if one of its
/// services is for wheelchairs (BHP), strollers (KW) or bicycles (VR, VH), or access
/// without a step (NF). It is among those of first or second class by its type.
pub proof fn law_coaches_are_listed_by_what_they_offer(
    coaches: Seq<FormationCoachView>,
    more: FormationCoachView,
    markers: Seq<char>,
    front: usize,
    rear: usize,
)
    ensures
        ({
            let before = render_of(coaches, markers, front, rear);
            let after = render_of(coaches.push(more), markers, front, rear);
            let label = if more.order is Some {
                more.type_code + ":"@ + more.order->0
            } else {
                more.type_code
            };
            &&& after.accessible_coaches == if offers_access(more) {
                before.accessible_coaches.push(label)
            } else {
                before.accessible_coaches
            }
            &&& after.first_class_coaches == if is_of_class(more, '1') {
                before.first_class_coaches.push(label)
            } else {
                before.first_class_coaches
            }
            &&& after.second_class_coaches == if is_of_class(more, '2') {
                before.second_class_coaches.push(label)
            } else {
                before.second_class_coaches
            }
            &&& render_of(Seq::empty(), markers, front, rear).accessible_coaches.len() == 0
            &&& render_of(Seq::empty(), markers, front, rear).first_class_coaches.len() == 0
            &&& render_of(Seq::empty(), markers, front, rear).second_class_coaches.len() == 0
        }),
{
    lemma_codes();
    assert(coaches.push(more).drop_last() =~= coaches);
    assert(has_feature(more, CoachFeature::Accessible) == offers_access(more)) by {
        assert forall|k: int| #![trigger more.services[k]] 0 <= k < more.services.len() implies
            access_code(more.services[k]) == eases_access(more.services[k]) by {}
    }
}

/// The coaches as data: one for each coach, in order, with its label, its type, its sector,
/// its services and its passages.
pub proof fn law_data_tells_of_each_coach(
    coaches: Seq<FormationCoachView>,
    markers: Seq<char>,
    front: usize,
    rear: usize,
    i: int,
)
    requires
        0 <= i < coaches.len(),
    ensures
        ({
            let parsed = render_of(coaches, markers, front, rear).parsed;
            let told = parsed.coaches[i];
            let c = coaches[i];
            &&& parsed.coaches.len() == coaches.len()
            &&& parsed.padding.front == front
            &&& parsed.padding.rear == rear
            &&& c.order is Some ==> told.id == c.type_code + ":"@ + c.order->0
            &&& c.order is None ==> told.id == c.type_code
            &&& told.vehicle_type == text::uppered(c.type_code)
            &&& told.class_label == vehicle_label(c.type_code)
            &&& c.sector is Some ==> told.sector == Some(seq![c.sector->0])
            &&& c.sector is None ==> told.sector is None
            &&& told.services.len() == c.services.len()
            &&& forall|k: int|
                0 <= k < told.services.len() ==> #[trigger] told.services[k] == text::uppered(
                    c.services[k],
                )
            &&& told.no_passage_prev == c.no_pass_left
            &&& told.no_passage_next == c.no_pass_right
            &&& c.sector is Some ==> parsed.sectors_seen.contains(seq![c.sector->0])
        }),
{
    let c = coaches[i];
    if c.sector is Some {
        lemma_coach_sectors(coaches, i);
        let all = char_texts(markers) + coach_sectors(coaches);
        let x = seq![c.sector->0];
        let k = choose|k: int| 0 <= k < coach_sectors(coaches).len() && coach_sectors(coaches)[k] == x;
        assert(all[markers.len() + k] == x);
        text::law_uniques_are_all(all, x);
    }
}

/// A sector that is marked is among those seen.
pub proof fn law_marked_sectors_are_seen(
    coaches: Seq<FormationCoachView>,
    markers: Seq<char>,
    front: usize,
    rear: usize,
    i: int,
)
    requires
        0 <= i < markers.len(),
    ensures
        render_of(coaches, markers, front, rear).parsed.sectors_seen.contains(seq![markers[i]]),
{
    let all = char_texts(markers) + coach_sectors(coaches);
    assert(all[i] == seq![markers[i]]);
    text::law_uniques_are_all(all, seq![markers[i]]);
}

proof fn lemma_first_at(coaches: Seq<FormationCoachView>, sector: char, k: int)
    requires
        0 <= k < coaches.len(),
        coaches[k].sector == Some(sector),
        forall|j: int| 0 <= j < k ==> (#[trigger] coaches[j]).sector != Some(sector),
    ensures
        first_at(coaches, seq![sector]) == label_of(coaches[k]),
    decreases coaches.len(),
{
    assert(seq![sector][0] == sector);
    if k > 0 {
        let rest = coaches.drop_first();
        assert forall|j: int| 0 <= j < k - 1 implies (#[trigger] rest[j]).sector != Some(sector) by {
            assert(rest[j] == coaches[j + 1]);
        }
        lemma_first_at(rest, sector, k - 1);
        assert(coaches[0].sector != Some(sector));
        if coaches[0].sector is Some {
            assert(seq![coaches[0].sector->0][0] == coaches[0].sector->0);
        }
    }
}

proof fn lemma_last_at(coaches: Seq<FormationCoachView>, sector: char, k: int)
    requires
        0 <= k < coaches.len(),
        coaches[k].sector == Some(sector),
        forall|j: int| k < j < coaches.len() ==> (#[trigger] coaches[j]).sector != Some(sector),
    ensures
        last_at(coaches, seq![sector]) == label_of(coaches[k]),
    decreases coaches.len(),
{
    assert(seq![sector][0] == sector);
    if k < coaches.len() - 1 {
        let rest = coaches.drop_last();
        let n = coaches.len() - 1;
        assert forall|j: int| k < j < rest.len() implies (#[trigger] rest[j]).sector != Some(sector) by {
            assert(rest[j] == coaches[j]);
        }
        lemma_last_at(rest, sector, k);
        assert(coaches[n].sector != Some(sector));
        if coaches[n].sector is Some {
            assert(seq![coaches[n].sector->0][0] == coaches[n].sector->0);
        }
    }
}

/// The range of a sector goes from the first coach that stands there to the last one.
pub proof fn law_range_spans_the_coaches_at_a_sector(
    coaches: Seq<FormationCoachView>,
    sector: char,
    first: int,
    last: int,
)
    requires
        0 <= first <= last < coaches.len(),
        coaches[first].sector == Some(sector),
        coaches[last].sector == Some(sector),
        forall|j: int|
            0 <= j < first || last < j < coaches.len() ==> (#[trigger] coaches[j]).sector != Some(
                sector,
            ),
    ensures
        exists|i: int|
            #![trigger ranges_of(coaches)[i]]
            {
                &&& 0 <= i < ranges_of(coaches).len()
                &&& ranges_of(coaches)[i].sector == seq![sector]
                &&& ranges_of(coaches)[i].from_coach == label_of(coaches[first])
                &&& ranges_of(coaches)[i].to_coach == label_of(coaches[last])
            },
        label_of(coaches[first]) == if coaches[first].order is Some {
            coaches[first].type_code + ":"@ + coaches[first].order->0
        } else {
            coaches[first].type_code
        },
{
    lemma_first_at(coaches, sector, first);
    lemma_last_at(coaches, sector, last);
    lemma_coach_sectors(coaches, first);
    let all = coach_sectors(coaches);
    text::law_uniques_are_all(all, seq![sector]);
    let sectors = text::uniques(all);
    let i = choose|i: int| 0 <= i < sectors.len() && sectors[i] == seq![sector];
    assert(ranges_of(coaches)[i] == range_at(coaches, sectors[i]));
}

proof fn lemma_first_suited_at(
    coaches: Seq<WagonFormationCoachView>,
    label: Option<Seq<char>>,
    k: int,
)
    requires
        0 <= k < coaches.len(),
        suits(coaches[k], label),
        forall|j: int| 0 <= j < k ==> !suits(#[trigger] coaches[j], label),
    ensures
        first_suited(coaches, label) == Some(coaches[k]),
    decreases coaches.len(),
{
    if k > 0 {
        let rest = coaches.drop_first();
        assert forall|j: int| 0 <= j < k - 1 implies !suits(#[trigger] rest[j], label) by {
            assert(rest[j] == coaches[j + 1]);
        }
        lemma_first_suited_at(rest, label, k - 1);
        assert(!suits(coaches[0], label));
    }
}

/// Where the first accessible coach stands at a known sector, riders are sent to that
/// sector and coach.
pub proof fn law_hint_leads_to_an_accessible_coach(
    coaches: Seq<WagonFormationCoachView>,
    accessible: Seq<Seq<char>>,
    k: int,
)
    requires
        0 <= k < coaches.len(),
        accessible.len() > 0,
        coaches[k].id == accessible[0],
        coaches[k].sector is Some,
        forall|j: int| 0 <= j < k ==> (#[trigger] coaches[j]).id != accessible[0],
    ensures
        ({
            let hint = hint_of(coaches, accessible);
            let head = "Go to sector "@ + coaches[k].sector->0 + " for coach "@ + coaches[k].id;
            &&& coaches[k].services.len() == 0 ==> hint == head + "."@
            &&& coaches[k].services.len() > 0 ==> hint == head + " ("@ + text::joined(
                service_texts(coaches[k].services),
                ", "@,
            ) + ")"@
        }),
{
    lemma_first_suited_at(coaches, Some(accessible[0]), k);
}

/// Without an accessible coach riders are sent to the first coach at a known sector, and
/// without any such coach to the signs.
pub proof fn law_hint_without_accessible_coaches(coaches: Seq<WagonFormationCoachView>, k: int)
    requires
        0 <= k <= coaches.len(),
        k < coaches.len() ==> coaches[k].sector is Some,
        forall|j: int| 0 <= j < k ==> (#[trigger] coaches[j]).sector is None,
    ensures
        k == coaches.len() ==> hint_of(coaches, Seq::empty())
            == "Use sector markers shown for your coach."@,
        k < coaches.len() && coaches[k].services.len() == 0 ==> hint_of(coaches, Seq::empty())
            == "Go to sector "@ + coaches[k].sector->0 + " for coach "@ + coaches[k].id + "."@,
    decreases coaches.len(),
{
    if k < coaches.len() {
        lemma_first_suited_at(coaches, None, k);
    } else {
        lemma_none_suited(coaches);
    }
}

proof fn lemma_none_suited(coaches: Seq<WagonFormationCoachView>)
    requires
        forall|j: int| 0 <= j < coaches.len() ==> (#[trigger] coaches[j]).sector is None,
    ensures
        first_suited(coaches, None) is None,
    decreases coaches.len(),
{
    if coaches.len() > 0 {
        let rest = coaches.drop_first();
        assert forall|j: int| 0 <= j < rest.len() implies (#[trigger] rest[j]).sector is None by {
            assert(rest[j] == coaches[j + 1]);
        }
        lemma_none_suited(rest);
        assert(coaches[0].sector is None);
    }
}

/// An accessible coach without a known sector is passed over for the next one.
pub proof fn law_hint_passes_over_unknown_sectors(
    coaches: Seq<WagonFormationCoachView>,
    accessible: Seq<Seq<char>>,
)
    requires
        accessible.len() > 0,
        forall|j: int|
            0 <= j < coaches.len() && (#[trigger] coaches[j]).id == accessible[0]
                ==> coaches[j].sector is None,
    ensures
        hint_of(coaches, accessible) == hint_of(coaches, accessible.drop_first()),
{
    lemma_none_suited_under(coaches, accessible[0]);
}

proof fn lemma_none_suited_under(coaches: Seq<WagonFormationCoachView>, label: Seq<char>)
    requires
        forall|j: int|
            0 <= j < coaches.len() && (#[trigger] coaches[j]).id == label ==> coaches[j].sector
                is None,
    ensures
        first_suited(coaches, Some(label)) is None,
    decreases coaches.len(),
{
    if coaches.len() > 0 {
        let rest = coaches.drop_first();
        assert forall|j: int| 0 <= j < rest.len() && (#[trigger] rest[j]).id == label implies
            rest[j].sector is None by {
            assert(rest[j] == coaches[j + 1]);
        }
        lemma_none_suited_under(rest, label);
        assert(!suits(coaches[0], Some(label)));
    }
}

/// The diagram shows the coaches in order: each with its label, its services and its
/// sector, and with brackets where there is no passage.
pub proof fn law_diagram_shows_the_coaches(coaches: Seq<FormationCoachView>, more: FormationCoachView)
    ensures
        coaches.len() > 0 ==> diagram_of(coaches.push(more)) == diagram_of(coaches) + " -> "@
            + diagram_of(seq![more]),
        more.services.len() == 0 && more.sector is None && !more.no_pass_left
            && !more.no_pass_right ==> diagram_of(seq![more]) == "|"@ + label_of(more) + "|"@,
        more.services.len() == 0 && more.sector is None && more.no_pass_left
            && !more.no_pass_right ==> diagram_of(seq![more]) == "(|"@ + label_of(more) + "|"@,
        more.services.len() == 0 && more.sector is None && !more.no_pass_left && more.no_pass_right
            ==> diagram_of(seq![more]) == "|"@ + label_of(more) + "|)"@,
        more.services.len() == 1 && more.sector is Some && !more.no_pass_left
            && !more.no_pass_right ==> diagram_of(seq![more]) == "|"@ + label_of(more) + " "@
            + more.services[0] + " @"@ + seq![more.sector->0] + "|"@,
        more.services.len() == 0 && more.sector is Some && !more.no_pass_left
            && !more.no_pass_right ==> diagram_of(seq![more]) == "|"@ + label_of(more) + " @"@
            + seq![more.sector->0] + "|"@,
{
    let all = coaches.push(more);
    assert(drawings(all).drop_last() =~= drawings(coaches));
    assert(drawings(seq![more]) =~= seq![coach_drawing(more)]);
    reveal_strlit("|");
    reveal_strlit("(");
    reveal_strlit(")");
    reveal_strlit("(|");
    reveal_strlit("|)");
    let l = label_of(more);
    if more.services.len() == 1 {
        assert(text::joined(more.services, "+"@) == more.services[0]);
    }
    if more.services.len() == 1 && more.sector is Some && !more.no_pass_left
        && !more.no_pass_right {
        assert(coach_drawing(more) =~= "|"@ + l + " "@ + more.services[0] + " @"@ + seq![
            more.sector->0,
        ] + "|"@);
    }
    if more.services.len() == 0 {
        if more.sector is None {
            if !more.no_pass_left && !more.no_pass_right {
                assert(coach_drawing(more) =~= "|"@ + l + "|"@);
            } else if more.no_pass_left && !more.no_pass_right {
                assert(coach_drawing(more) =~= "(|"@ + l + "|"@);
            } else if !more.no_pass_left {
                assert(coach_drawing(more) =~= "|"@ + l + "|)"@);
            }
        } else if !more.no_pass_left && !more.no_pass_right {
            assert(coach_drawing(more) =~= "|"@ + l + " @"@ + seq![more.sector->0] + "|"@);
        }
    }
}

/// The legend explains the type and the services of each coach.
pub proof fn law_legend_explains_the_codes(coaches: Seq<FormationCoachView>, i: int, k: int)
    requires
        0 <= i < coaches.len(),
    ensures
        legend_of(coaches).contains(
            text::uppered(coaches[i].type_code) + " = "@ + vehicle_label(
                text::uppered(coaches[i].type_code),
            ),
        ),
        0 <= k < coaches[i].services.len() ==> legend_of(coaches).contains(
            text::uppered(coaches[i].services[k]) + " = "@ + service_text(
                text::uppered(coaches[i].services[k]),
            ),
        ),
        coaches[i].sector is Some ==> legend_of(coaches).contains(
            "@X = platform sector marker near that coach (X = A/B/C/...)"@,
        ),
        legend_of(coaches).contains("-> = next coach toward rear"@),
        legend_of(coaches).contains("( ... ) = no passage at one end of the marked coach"@),
{
    broadcast use vstd::seq_lib::group_to_multiset_ensures;

    let legend = legend_of(coaches);
    let signs = seq![
        "-> = next coach toward rear"@,
        "( ... ) = no passage at one end of the marked coach"@,
    ];
    let note = remark(
        any_sector(coaches),
        "@X = platform sector marker near that coach (X = A/B/C/...)"@,
    );
    let types = type_entries(text::uniques(type_codes(coaches)));
    let services = service_entries(text::uniques(service_codes(coaches)));
    let a = order::sorted::<String>(types);
    let b = order::sorted::<String>(services);
    order::law_sorted_keeps_items::<String>(types);
    order::law_sorted_keeps_items::<String>(services);
    assert(legend =~= signs + note + a + b);
    assert(legend[0] == signs[0]);
    assert(legend[1] == signs[1]);
    if coaches[i].sector is Some {
        assert(any_sector(coaches));
        assert(legend[2] == note[0]);
    }
    let code = text::uppered(coaches[i].type_code);
    assert(type_codes(coaches)[i] == code);
    text::law_uniques_are_all(type_codes(coaches), code);
    let m = choose|m: int|
        0 <= m < text::uniques(type_codes(coaches)).len() && text::uniques(type_codes(coaches))[m]
            == code;
    let entry = type_entry(code);
    assert(types[m] == entry);
    assert(types.contains(entry));
    assert(types.to_multiset().contains(entry));
    assert(a.contains(entry));
    let p = choose|p: int| 0 <= p < a.len() && a[p] == entry;
    assert(legend[(signs.len() + note.len() + p) as int] == entry);
    if 0 <= k < coaches[i].services.len() {
        let code = text::uppered(coaches[i].services[k]);
        lemma_service_codes(coaches, i, k);
        text::law_uniques_are_all(service_codes(coaches), code);
        let m = choose|m: int|
            0 <= m < text::uniques(service_codes(coaches)).len() && text::uniques(
                service_codes(coaches),
            )[m] == code;
        let entry = service_entry(code);
        assert(services[m] == entry);
        assert(services.contains(entry));
        assert(services.to_multiset().contains(entry));
        assert(b.contains(entry));
        let p = choose|p: int| 0 <= p < b.len() && b[p] == entry;
        assert(legend[(signs.len() + note.len() + a.len() + p) as int] == entry);
    }
}

proof fn lemma_service_codes(coaches: Seq<FormationCoachView>, i: int, k: int)
    requires
        0 <= i < coaches.len(),
        0 <= k < coaches[i].services.len(),
    ensures
        service_codes(coaches).contains(text::uppered(coaches[i].services[k])),
    decreases coaches.len(),
{
    let before = coaches.drop_last();
    let code = text::uppered(coaches[i].services[k]);
    let all = service_codes(coaches);
    if i < before.len() {
        lemma_service_codes(before, i, k);
        let m = choose|m: int|
            0 <= m < service_codes(before).len() && service_codes(before)[m] == code;
        assert(all[m] == code);
    } else {
        assert(all[service_codes(before).len() + k] == code);
    }
}

/// The display for riders tells, line by line, the hint, the sectors, the classes, the
/// accessible coaches and the diagram.
pub proof fn law_display_tells_line_by_line(
    coaches: Seq<FormationCoachView>,
    markers: Seq<char>,
    front: usize,
    rear: usize,
)
    ensures
        ({
            let r = render_of(coaches, markers, front, rear);
            let none = "none"@;
            &&& text::contains(r.human_display, "Boarding hint: "@ + r.boarding_hint)
            &&& text::contains(r.human_display, "\nDiagram: "@ + r.diagram)
            &&& text::contains(
                r.human_display,
                "\n2nd class: "@ + if r.second_class_coaches.len() == 0 {
                    none
                } else {
                    text::joined(r.second_class_coaches, ", "@)
                },
            )
            &&& text::contains(
                r.human_display,
                "\n1st class: "@ + if r.first_class_coaches.len() == 0 {
                    none
                } else {
                    text::joined(r.first_class_coaches, ", "@)
                },
            )
            &&& r.accessible_coaches.len() == 0 ==> text::contains(
                r.human_display,
                "\nAccessible: none"@,
            )
            &&& r.diagram == diagram_of(coaches)
            &&& r.sector_to_coach_range == ranges_of(coaches)
            &&& r.legend == legend_of(coaches)
        }),
{
    let r = render_of(coaches, markers, front, rear);
    let sectors = listed(all_range_words(r.sector_to_coach_range), " | "@);
    let second = listed(r.second_class_coaches, ", "@);
    let first = listed(r.first_class_coaches, ", "@);
    let access = listed(all_access_words(r.accessible_coaches, r.parsed.coaches), ", "@);
    let d = r.human_display;
    let a = "Boarding hint: "@ + r.boarding_hint;
    let b = "\nDirection: front -> rear\nSectors: "@ + sectors;
    let c = "\n2nd class: "@ + second;
    let e = "\n1st class: "@ + first;
    let f = "\nAccessible: "@ + access;
    let g = "\nDiagram: "@ + r.diagram;
    assert(d =~= a + b + c + e + f + g);
    let n1 = a.len() as int;
    let n2 = n1 + b.len();
    let n3 = n2 + c.len();
    let n4 = n3 + e.len();
    let n5 = n4 + f.len();
    assert(d.subrange(0, n1) =~= a);
    assert(text::occurs_at(d, a, 0));
    assert(d.subrange(n2, n3) =~= c);
    assert(text::occurs_at(d, c, n2));
    assert(d.subrange(n3, n4) =~= e);
    assert(text::occurs_at(d, e, n3));
    assert(d.subrange(n4, n5) =~= f);
    assert(text::occurs_at(d, f, n4));
    assert(d.subrange(n5, n5 + g.len()) =~= g);
    assert(text::occurs_at(d, g, n5));
    if r.accessible_coaches.len() == 0 {
        reveal_strlit("\nAccessible: ");
        reveal_strlit("none");
        reveal_strlit("\nAccessible: none");
        assert(f =~= "\nAccessible: none"@);
    }
}

/// An accessible coach is told with its label and the codes of its services.
pub proof fn law_accessible_coaches_are_told(
    label: Seq<char>,
    coaches: Seq<WagonFormationCoachView>,
    k: int,
)
    requires
        0 <= k < coaches.len(),
        coaches[k].id == label,
        forall|j: int| 0 <= j < k ==> (#[trigger] coaches[j]).id != label,
    ensures
        coaches[k].services.len() == 0 ==> access_words(label, coaches) == label,
        coaches[k].services.len() == 1 && coaches[k].services[0].len() > 0 ==> access_words(
            label,
            coaches,
        ) == label + " ("@ + coaches[k].services[0] + ")"@,
    decreases coaches.len(),
{
    if k > 0 {
        let rest = coaches.drop_first();
        assert forall|j: int| 0 <= j < k - 1 implies (#[trigger] rest[j]).id != label by {
            assert(rest[j] == coaches[j + 1]);
        }
        law_accessible_coaches_are_told(label, rest, k - 1);
        assert(coaches[0].id != label);
    }
}

/// The words for a coach: its label, what it is, its sector, its passages and its services.
pub proof fn law_words_for_a_coach(c: FormationCoachView)
    ensures
        ({
            let said = details_of(c);
            &&& said[0] == vehicle_label(c.type_code)
            &&& c.sector is Some ==> said.contains("sector "@ + seq![c.sector->0])
            &&& c.no_pass_left ==> said.contains("no passage to previous coach"@)
            &&& c.no_pass_right ==> said.contains("no passage to next coach"@)
            &&& forall|k: int|
                #![trigger c.services[k]]
                0 <= k < c.services.len() ==> said.contains(service_text(c.services[k]))
            &&& said.len() == 1 + (if c.sector is Some {
                1int
            } else {
                0
            }) + (if c.no_pass_left {
                1int
            } else {
                0
            }) + (if c.no_pass_right {
                1int
            } else {
                0
            }) + c.services.len()
            &&& coach_words(c) == label_of(c) + " ("@ + text::joined(said, ", "@) + ")"@
        }),
{
    let said = details_of(c);
    let a = seq![vehicle_label(c.type_code)];
    let b = sector_words(c.sector);
    let d = remark(c.no_pass_left, "no passage to previous coach"@);
    let e = remark(c.no_pass_right, "no passage to next coach"@);
    let f = service_texts(c.services);
    assert(said =~= a + b + d + e + f);
    if c.sector is Some {
        assert(said[1] == b[0]);
    }
    if c.no_pass_left {
        assert(said[1 + b.len() as int] == d[0]);
    }
    if c.no_pass_right {
        assert(said[1 + b.len() + d.len() as int] == e[0]);
    }
    assert forall|k: int| #![trigger c.services[k]] 0 <= k < c.services.len() implies said.contains(
        service_text(c.services[k]),
    ) by {
        assert(f[k] == service_text(c.services[k]));
        assert(said[1 + b.len() + d.len() + e.len() + k] == f[k]);
    }
}

/// A train is shown exactly if its notation has a coach that is no padding, and what is
/// shown is of those coaches alone, with the number of padding coaches at either end.
pub proof fn law_padding_is_only_counted(short: Seq<char>)
    ensures
        ({
            let scan = coach::scanned(text::pieces(text::trimmed(short), CharSet::Only(',')));
            let kept = scan.coaches.filter(|c: FormationCoachView| !c.is_padding);
            &&& rendered(short) is Some <==> kept.len() > 0
            &&& rendered(short) is Some ==> rendered(short)->0.parsed.coaches.len() == kept.len()
            &&& rendered(short) is Some && scan.coaches.len() <= usize::MAX ==> {
                &&& rendered(short)->0.parsed.padding.front == coach::front_padding(scan.coaches)
                &&& rendered(short)->0.parsed.padding.rear == coach::rear_padding(scan.coaches)
                &&& rendered(short)->0 == render_of(
                    kept,
                    scan.markers,
                    coach::front_padding(scan.coaches) as usize,
                    coach::rear_padding(scan.coaches) as usize,
                )
            }
        }),
{
    let scan = coach::scanned(text::pieces(text::trimmed(short), CharSet::Only(',')));
    coach::law_real_coaches_are_the_others(scan.coaches);
    coach::law_padding_ends_at_a_coach(scan.coaches);
}

/// The coaches at a sector are told by the first and the last of them, and a single one only
/// once.
pub proof fn law_words_for_a_range(sector: Seq<char>, from: Seq<char>, to: Seq<char>)
    ensures
        range_words(
            WagonFormationSectorRangeView { sector, from_coach: from, to_coach: from },
        ) == sector + seq![':', ' '] + from,
        from != to ==> range_words(
            WagonFormationSectorRangeView { sector, from_coach: from, to_coach: to },
        ) == sector + seq![':', ' '] + from + seq!['.', '.'] + to,
{
    reveal_strlit(": ");
    reveal_strlit("..");
    assert(": "@ =~= seq![':', ' ']);
    assert(".."@ =~= seq!['.', '.']);
}

/// The display for riders tells the coaches at each sector, one after the other, or that none
/// is known.
pub proof fn law_display_tells_the_sectors(
    coaches: Seq<FormationCoachView>,
    markers: Seq<char>,
    front: usize,
    rear: usize,
)
    ensures
        ({
            let r = render_of(coaches, markers, front, rear);
            let ranges = r.sector_to_coach_range;
            &&& ranges.len() == 0 ==> text::contains(
                r.human_display,
                "\nDirection: front -> rear\nSectors: none"@,
            )
            &&& ranges.len() > 0 ==> text::contains(
                r.human_display,
                "\nDirection: front -> rear\nSectors: "@ + text::joined(
                    Seq::new(ranges.len(), |i: int| range_words(ranges[i])),
                    " | "@,
                ),
            )
        }),
{
    let r = render_of(coaches, markers, front, rear);
    let ranges = r.sector_to_coach_range;
    let told = all_range_words(ranges);
    assert(told =~= Seq::new(ranges.len(), |i: int| range_words(ranges[i])));
    let sectors = listed(told, " | "@);
    let d = r.human_display;
    let a = "Boarding hint: "@ + r.boarding_hint;
    let p = "\nDirection: front -> rear\nSectors: "@ + sectors;
    reveal_strlit("\nDirection: front -> rear\nSectors: ");
    reveal_strlit("\nDirection: front -> rear\nSectors: none");
    reveal_strlit("none");
    assert("\nDirection: front -> rear\nSectors: none"@
        =~= "\nDirection: front -> rear\nSectors: "@ + "none"@);
    let n = a.len() as int;
    assert(d.subrange(n, n + p.len()) =~= p);
    assert(text::occurs_at(d, p, n));
}

} // verus!
