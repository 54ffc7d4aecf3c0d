//! The notation of a train: coaches with their numbers, services and platform sectors.

use vstd::prelude::*;

use crate::duplicate::Duplicate;
use crate::text;
use crate::text::CharSet;

verus! {

/// A coach as its notation gives it.
#[derive(Debug)]
pub struct FormationCoach {
    /// Code of the vehicle type.
    pub type_code: String,
    /// Number of the coach.
    pub order: Option<String>,
    /// Codes of what it offers.
    pub services: Vec<String>,
    /// Platform sector.
    pub sector: Option<char>,
    /// No passage to the coach before it.
    pub no_pass_left: bool,
    /// No passage to the coach after it.
    pub no_pass_right: bool,
    /// A fictitious coach that fills the platform.
    pub is_padding: bool,
}

/// The view of a [`FormationCoach`].
#[verifier::ext_equal]
pub struct FormationCoachView {
    pub type_code: Seq<char>,
    pub order: Option<Seq<char>>,
    pub services: Seq<Seq<char>>,
    pub sector: Option<char>,
    pub no_pass_left: bool,
    pub no_pass_right: bool,
    pub is_padding: bool,
}

impl DeepView for FormationCoach {
    type V = FormationCoachView;

    open spec fn deep_view(&self) -> FormationCoachView {
        FormationCoachView {
            type_code: self.type_code.deep_view(),
            order: self.order.deep_view(),
            services: self.services.deep_view(),
            sector: self.sector.deep_view(),
            no_pass_left: self.no_pass_left.deep_view(),
            no_pass_right: self.no_pass_right.deep_view(),
            is_padding: self.is_padding.deep_view(),
        }
    }
}

impl Duplicate for FormationCoach {
    fn duplicate(&self) -> (r: Self) {
        FormationCoach {
            type_code: self.type_code.duplicate(),
            order: self.order.duplicate(),
            services: self.services.duplicate(),
            sector: self.sector.duplicate(),
            no_pass_left: self.no_pass_left,
            no_pass_right: self.no_pass_right,
            is_padding: self.is_padding,
        }
    }
}

impl Clone for FormationCoach {
    fn clone(&self) -> (r: Self)
        ensures
            r.deep_view() == self.deep_view(),
    {
        self.duplicate()
    }
}

// ---------------------------------------------------------------------------
// Sector markers
// ---------------------------------------------------------------------------

/// A platform sector is marked at the beginning of a text.
pub open spec fn marked(s: Seq<char>) -> bool {
    s.len() >= 2 && s[0] == '@' && text::is_alpha(s[1])
}

/// A text without the markers of platform sectors.
pub open spec fn unmarked(s: Seq<char>) -> Seq<char>
    decreases s.len(),
{
    if s.len() == 0 {
        s
    } else if marked(s) {
        unmarked(s.skip(2))
    } else {
        seq![s[0]] + unmarked(s.skip(1))
    }
}

/// The platform sectors that are marked in a text.
pub open spec fn markers(s: Seq<char>) -> Seq<char>
    decreases s.len(),
{
    if s.len() == 0 {
        s
    } else if marked(s) {
        seq![text::upper_char(s[1])] + markers(s.skip(2))
    } else {
        markers(s.skip(1))
    }
}

/// Parts a text and the platform sectors that are marked in it.
pub fn strip_sector_markers(token: &str) -> (r: (String, Vec<char>))
    ensures
        r.0@ == unmarked(token@),
        r.1@ == markers(token@),
{
    let chars = text::chars_of(token);
    let n: usize = chars.len();
    let mut cleaned = String::new();
    let mut sectors: Vec<char> = Vec::new();
    let mut i: usize = 0;
    assert(chars@.skip(0) =~= chars@);
    assert(cleaned@ + unmarked(chars@) =~= unmarked(chars@));
    assert(sectors@ + markers(chars@) =~= markers(chars@));
    while i < n
        invariant
            n == chars@.len(),
            chars@ == token@,
            i <= n,
            cleaned@ + unmarked(chars@.skip(i as int)) == unmarked(chars@),
            sectors@ + markers(chars@.skip(i as int)) == markers(chars@),
        decreases n - i,
    {
        let ghost rest = chars@.skip(i as int);
        let c: char = chars[i];
        assert(rest[0] == c);
        if c == '@' && i + 1 < n && text::char_is_alpha(chars[i + 1]) {
            assert(rest[1] == chars@[i + 1]);
            assert(rest.skip(2) =~= chars@.skip(i + 2));
            let sector: char = text::char_to_upper(chars[i + 1]);
            let ghost before = sectors@;
            sectors.push(sector);
            assert(before + markers(rest) =~= sectors@ + markers(rest.skip(2)));
            i += 2;
        } else {
            assert(rest.len() >= 2 ==> rest[1] == chars@[i + 1]);
            assert(rest.skip(1) =~= chars@.skip(i + 1));
            let ghost before = cleaned@;
            cleaned.push(c);
            assert(before + unmarked(rest) =~= cleaned@ + unmarked(rest.skip(1)));
            i += 1;
        }
    }
    assert(chars@.skip(i as int) =~= Seq::empty());
    assert(cleaned@ + Seq::<char>::empty() =~= cleaned@);
    assert(sectors@ + Seq::<char>::empty() =~= sectors@);
    (cleaned, sectors)
}

// ---------------------------------------------------------------------------
// Coaches
// ---------------------------------------------------------------------------

/// The vehicle and the services in the notation of a coach.
pub open spec fn vehicle_and_services(core: Seq<char>) -> (Seq<char>, Seq<Seq<char>>) {
    match text::cut(core, '#') {
        Some((vehicle, services)) => (
            text::trimmed(vehicle),
            text::non_empty(
                text::all_trimmed(text::pieces(text::trimmed(services), CharSet::Only(';'))),
            ),
        ),
        None => (core, Seq::empty()),
    }
}

/// The type and the number in the notation of a vehicle.
pub open spec fn type_and_order(vehicle: Seq<char>) -> (Seq<char>, Option<Seq<char>>) {
    match text::cut(vehicle, ':') {
        Some((kind, order)) => (text::trimmed(kind), Some(text::trimmed(order))),
        None => (text::trimmed(vehicle), None),
    }
}

/// The coach that a notation describes. It needs a type.
pub open spec fn coach_of(token: Seq<char>) -> Option<FormationCoachView> {
    let core = text::trimmed(text::without(token, CharSet::Either('(', ')')));
    let (vehicle, services) = vehicle_and_services(core);
    let (type_code, order) = type_and_order(vehicle);
    if type_code.len() == 0 {
        None
    } else {
        Some(
            FormationCoachView {
                type_code,
                order,
                services,
                sector: None,
                no_pass_left: token.contains('('),
                no_pass_right: token.contains(')'),
                is_padding: text::uppered(type_code) == "F"@,
            },
        )
    }
}

/// The coach that a notation describes.
pub fn parse_coach_token(token: &str) -> (r: Option<FormationCoach>)
    ensures
        r.deep_view() == coach_of(token@),
{
    let no_pass_left = text::has_char(token, '(');
    let no_pass_right = text::has_char(token, ')');
    let bare = text::remove_chars(token, CharSet::Either('(', ')'));
    let core = text::trim(bare.as_str());
    let (vehicle, services) = match text::split_once(core.as_str(), '#') {
        Some((v, s)) => {
            let listed = text::trim(s.as_str());
            let parts = text::split(listed.as_str(), CharSet::Only(';'));
            (text::trim(v.as_str()), text::keep_non_empty(&text::trim_all(&parts)))
        },
        None => {
            let none: Vec<String> = Vec::new();
            assert(none.deep_view() =~= Seq::empty());
            (core, none)
        },
    };
    let (type_code, order) = match text::split_once(vehicle.as_str(), ':') {
        Some((t, o)) => (text::trim(t.as_str()), Some(text::trim(o.as_str()))),
        None => (text::trim(vehicle.as_str()), None),
    };
    if type_code.as_str().is_empty() {
        return None;
    }
    let upper = text::to_upper(type_code.as_str());
    let is_padding = text::same(upper.as_str(), "F");
    Some(
        FormationCoach {
            type_code,
            order,
            services,
            sector: None,
            no_pass_left,
            no_pass_right,
            is_padding,
        },
    )
}

// ---------------------------------------------------------------------------
// The whole train
// ---------------------------------------------------------------------------

/// What was read of a train.
#[derive(Debug)]
pub struct Scan {
    /// The coaches, padding among them.
    pub coaches: Vec<FormationCoach>,
    /// The platform sectors, as marked.
    pub markers: Vec<char>,
    /// The sector that the next coach stands at.
    pub pending: Option<char>,
}

/// The view of a [`Scan`].
#[verifier::ext_equal]
pub struct ScanView {
    pub coaches: Seq<FormationCoachView>,
    pub markers: Seq<char>,
    pub pending: Option<char>,
}

impl DeepView for Scan {
    type V = ScanView;

    open spec fn deep_view(&self) -> ScanView {
        ScanView {
            coaches: self.coaches.deep_view(),
            markers: self.markers@,
            pending: self.pending,
        }
    }
}

/// What was read after one more part of the notation. The last sector that was marked
/// goes to the next coach.
pub open spec fn scanned_part(before: ScanView, part: Seq<char>) -> ScanView {
    let bare = text::without(text::trimmed(part), CharSet::Either('[', ']'));
    let found = markers(bare);
    let pending = if found.len() > 0 {
        Some(found.last())
    } else {
        before.pending
    };
    let marked = ScanView { coaches: before.coaches, markers: before.markers + found, pending };
    match coach_of(text::trimmed(unmarked(bare))) {
        Some(coach) => ScanView {
            coaches: before.coaches.push(FormationCoachView { sector: pending, ..coach }),
            pending: None,
            ..marked
        },
        None => marked,
    }
}

/// What is read of the parts of a notation.
pub open spec fn scanned(parts: Seq<Seq<char>>) -> ScanView
    decreases parts.len(),
{
    if parts.len() == 0 {
        ScanView { coaches: Seq::empty(), markers: Seq::empty(), pending: None }
    } else {
        scanned_part(scanned(parts.drop_last()), parts.last())
    }
}

fn scan_part(scan: &mut Scan, part: &str)
    ensures
        final(scan).deep_view() == scanned_part(old(scan).deep_view(), part@),
{
    let ghost before = scan.deep_view();
    let trimmed = text::trim(part);
    let bare = text::remove_chars(trimmed.as_str(), CharSet::Either('[', ']'));
    let (clean, found) = strip_sector_markers(bare.as_str());
    let mut i: usize = 0;
    let mut pending: Option<char> = scan.pending;
    assert(found@.take(0) =~= Seq::empty());
    assert(scan.markers@ =~= before.markers + found@.take(0));
    while i < found.len()
        invariant
            i <= found@.len(),
            scan.coaches.deep_view() == before.coaches,
            scan.pending == before.pending,
            scan.markers@ == before.markers + found@.take(i as int),
            pending == if i > 0 {
                Some(found@[i - 1])
            } else {
                before.pending
            },
        decreases found@.len() - i,
    {
        assert(found@.take(i + 1) =~= found@.take(i as int).push(found@[i as int]));
        let ghost so_far = scan.markers@;
        scan.markers.push(found[i]);
        assert(scan.markers@ =~= before.markers + found@.take(i + 1));
        pending = Some(found[i]);
        i += 1;
    }
    assert(found@.take(i as int) =~= found@);
    let token = text::trim(clean.as_str());
    match parse_coach_token(token.as_str()) {
        Some(mut coach) => {
            coach.sector = pending;
            let ghost view = coach.deep_view();
            scan.coaches.push(coach);
            assert(scan.coaches.deep_view() =~= before.coaches.push(view));
            scan.pending = None;
        },
        None => {
            scan.pending = pending;
        },
    }
}

/// What is read of the notation of a train.
pub fn scan_train(short: &str) -> (r: Scan)
    ensures
        r.deep_view() == scanned(text::pieces(short@, CharSet::Only(','))),
{
    let parts = text::split(short, CharSet::Only(','));
    let ghost all = parts.deep_view();
    let mut scan = Scan { coaches: Vec::new(), markers: Vec::new(), pending: None };
    let mut i: usize = 0;
    assert(scan.deep_view() =~= scanned(all.take(0)));
    while i < parts.len()
        invariant
            i <= parts@.len(),
            all == parts.deep_view(),
            scan.deep_view() == scanned(all.take(i as int)),
        decreases parts@.len() - i,
    {
        assert(all.take(i + 1).drop_last() =~= all.take(i as int));
        assert(all.take(i + 1).last() == parts@[i as int]@);
        scan_part(&mut scan, parts[i].as_str());
        i += 1;
    }
    assert(all.take(i as int) =~= all);
    scan
}

/// The coaches that are no padding.
pub open spec fn real_coaches(coaches: Seq<FormationCoachView>) -> Seq<FormationCoachView>
    decreases coaches.len(),
{
    if coaches.len() == 0 {
        coaches
    } else {
        let before = real_coaches(coaches.drop_last());
        if coaches.last().is_padding {
            before
        } else {
            before.push(coaches.last())
        }
    }
}

/// The number of padding coaches at the front.
pub open spec fn front_padding(coaches: Seq<FormationCoachView>) -> nat
    decreases coaches.len(),
{
    if coaches.len() == 0 || !coaches[0].is_padding {
        0
    } else {
        1 + front_padding(coaches.drop_first())
    }
}

/// The number of padding coaches at the rear.
pub open spec fn rear_padding(coaches: Seq<FormationCoachView>) -> nat
    decreases coaches.len(),
{
    if coaches.len() == 0 || !coaches.last().is_padding {
        0
    } else {
        1 + rear_padding(coaches.drop_last())
    }
}

/// The coaches that are no padding.
pub fn keep_real_coaches(coaches: &Vec<FormationCoach>) -> (r: Vec<FormationCoach>)
    ensures
        r.deep_view() == real_coaches(coaches.deep_view()),
{
    let ghost all = coaches.deep_view();
    let mut out: Vec<FormationCoach> = Vec::new();
    let mut i: usize = 0;
    assert(out.deep_view() =~= real_coaches(all.take(0)));
    while i < coaches.len()
        invariant
            i <= coaches@.len(),
            all == coaches.deep_view(),
            out.deep_view() == real_coaches(all.take(i as int)),
        decreases coaches@.len() - i,
    {
        assert(all.take(i + 1).drop_last() =~= all.take(i as int));
        assert(all.take(i + 1).last() == coaches@[i as int].deep_view());
        if !coaches[i].is_padding {
            let ghost before = out.deep_view();
            out.push(coaches[i].duplicate());
            assert(out.deep_view() =~= before.push(coaches@[i as int].deep_view()));
        }
        i += 1;
    }
    assert(all.take(i as int) =~= all);
    out
}

/// The number of padding coaches at the front.
pub fn count_front_padding(coaches: &Vec<FormationCoach>) -> (r: usize)
    ensures
        r == front_padding(coaches.deep_view()),
{
    let ghost all = coaches.deep_view();
    let mut i: usize = 0;
    assert(all.skip(0) =~= all);
    while i < coaches.len() && coaches[i].is_padding
        invariant
            i <= coaches@.len(),
            all == coaches.deep_view(),
            front_padding(all) == i + front_padding(all.skip(i as int)),
        decreases coaches@.len() - i,
    {
        assert(all.skip(i as int)[0] == coaches@[i as int].deep_view());
        assert(all.skip(i as int).drop_first() =~= all.skip(i + 1));
        i += 1;
    }
    assert(i < coaches@.len() ==> all.skip(i as int)[0] == coaches@[i as int].deep_view());
    i
}

/// The number of padding coaches at the rear.
pub fn count_rear_padding(coaches: &Vec<FormationCoach>) -> (r: usize)
    ensures
        r == rear_padding(coaches.deep_view()),
{
    let ghost all = coaches.deep_view();
    let n: usize = coaches.len();
    let mut i: usize = n;
    assert(all.take(n as int) =~= all);
    while i > 0 && coaches[i - 1].is_padding
        invariant
            n == coaches@.len(),
            i <= n,
            all == coaches.deep_view(),
            rear_padding(all) == (n - i) + rear_padding(all.take(i as int)),
        decreases i,
    {
        assert(all.take(i as int).last() == coaches@[i - 1].deep_view());
        assert(all.take(i as int).drop_last() =~= all.take(i - 1));
        i -= 1;
    }
    assert(i > 0 ==> all.take(i as int).last() == coaches@[i - 1].deep_view());
    n - i
}

/// No padding coach is among the real ones.
pub proof fn law_real_coaches_are_no_padding(coaches: Seq<FormationCoachView>, i: int)
    requires
        0 <= i < real_coaches(coaches).len(),
    ensures
        !real_coaches(coaches)[i].is_padding,
    decreases coaches.len(),
{
    let before = real_coaches(coaches.drop_last());
    if i < before.len() {
        law_real_coaches_are_no_padding(coaches.drop_last(), i);
    }
}

// ---------------------------------------------------------------------------
// Brackets
// ---------------------------------------------------------------------------

/// What a part says: the sectors that it marks and the notation of its coach.
spec fn reading(part: Seq<char>) -> (Seq<char>, Seq<char>) {
    let bare = text::without(text::trimmed(part), CharSet::Either('[', ']'));
    (markers(bare), text::trimmed(unmarked(bare)))
}

proof fn lemma_marks_after_white(s: Seq<char>, w: char)
    requires
        text::is_white(w),
    ensures
        markers(seq![w] + s) == markers(s),
        unmarked(seq![w] + s) == seq![w] + unmarked(s),
{
    assert((seq![w] + s).skip(1) =~= s);
}

proof fn lemma_marks_before_white(s: Seq<char>, w: char)
    requires
        text::is_white(w),
    ensures
        markers(s.push(w)) == markers(s),
        unmarked(s.push(w)) == unmarked(s).push(w),
    decreases s.len(),
{
    let t = s.push(w);
    if s.len() == 0 {
        assert(t.skip(1) =~= s);
        assert(markers(s) =~= s && unmarked(s) =~= s);
        assert(unmarked(t) =~= unmarked(s).push(w));
    } else {
        assert(t[0] == s[0]);
        if s.len() >= 2 {
            assert(t[1] == s[1]);
        } else {
            assert(t[1] == w);
        }
        if marked(s) {
            assert(t.skip(2) =~= s.skip(2).push(w));
            lemma_marks_before_white(s.skip(2), w);
        } else {
            assert(t.skip(1) =~= s.skip(1).push(w));
            lemma_marks_before_white(s.skip(1), w);
            assert(unmarked(t) =~= unmarked(s).push(w));
        }
    }
}

proof fn lemma_reading_of_start(part: Seq<char>)
    ensures
        ({
            let set = CharSet::Either('[', ']');
            let bare = text::without(part, set);
            let cut = text::without(text::trimmed_start(part), set);
            &&& markers(cut) == markers(bare)
            &&& text::trimmed(unmarked(cut)) == text::trimmed(unmarked(bare))
        }),
    decreases part.len(),
{
    if part.len() > 0 && text::is_white(part.first()) {
        let set = CharSet::Either('[', ']');
        let w = part.first();
        let rest = part.drop_first();
        lemma_reading_of_start(rest);
        assert(part =~= seq![w] + rest);
        text::lemma_without_joined(seq![w], rest, set);
        let none = Seq::<char>::empty();
        assert(seq![w].drop_last() =~= none);
        assert(text::without(none, set) =~= none);
        assert(text::without(seq![w], set) =~= seq![w]);
        lemma_marks_after_white(text::without(rest, set), w);
        text::lemma_trimmed_after_white(unmarked(text::without(rest, set)), w);
    }
}

proof fn lemma_reading_of_end(part: Seq<char>)
    ensures
        ({
            let set = CharSet::Either('[', ']');
            let bare = text::without(part, set);
            let cut = text::without(text::trimmed_end(part), set);
            &&& markers(cut) == markers(bare)
            &&& text::trimmed(unmarked(cut)) == text::trimmed(unmarked(bare))
        }),
    decreases part.len(),
{
    if part.len() > 0 && text::is_white(part.last()) {
        let set = CharSet::Either('[', ']');
        let w = part.last();
        let rest = part.drop_last();
        lemma_reading_of_end(rest);
        lemma_marks_before_white(text::without(rest, set), w);
        text::lemma_trimmed_before_white(unmarked(text::without(rest, set)), w);
    }
}

proof fn lemma_reading_without_brackets(part: Seq<char>)
    ensures
        reading(text::without(part, CharSet::Either('[', ']'))) == reading(part),
{
    let set = CharSet::Either('[', ']');
    let bare = text::without(part, set);
    lemma_reading_of_start(part);
    lemma_reading_of_end(text::trimmed_start(part));
    lemma_reading_of_start(bare);
    lemma_reading_of_end(text::trimmed_start(bare));
    text::lemma_without_again(part, set);
}

proof fn lemma_scanned_alike(parts: Seq<Seq<char>>, others: Seq<Seq<char>>)
    requires
        parts.len() == others.len(),
        forall|i: int| 0 <= i < parts.len() ==> #[trigger] reading(parts[i]) == reading(others[i]),
    ensures
        scanned(parts) == scanned(others),
    decreases parts.len(),
{
    if parts.len() > 0 {
        let n = parts.len() - 1;
        assert forall|i: int| 0 <= i < n implies #[trigger] reading(parts.drop_last()[i])
            == reading(others.drop_last()[i]) by {
            assert(reading(parts[i]) == reading(others[i]));
        }
        lemma_scanned_alike(parts.drop_last(), others.drop_last());
        assert(reading(parts[n]) == reading(others[n]));
    }
}

proof fn lemma_scanned_behind_white(s: Seq<char>)
    ensures
        scanned(text::pieces(text::trimmed_start(s), CharSet::Only(','))) == scanned(
            text::pieces(s, CharSet::Only(',')),
        ),
    decreases s.len(),
{
    if s.len() > 0 && text::is_white(s.first()) {
        let set = CharSet::Only(',');
        let w = s.first();
        let rest = s.drop_first();
        lemma_scanned_behind_white(rest);
        assert(s =~= seq![w] + rest);
        text::lemma_pieces_behind(rest, w, set);
        let a = text::pieces(s, set);
        let b = text::pieces(rest, set);
        text::lemma_trimmed_after_white(b[0], w);
        lemma_scanned_alike(a, b);
    }
}

proof fn lemma_scanned_before_white(s: Seq<char>)
    ensures
        scanned(text::pieces(text::trimmed_end(s), CharSet::Only(','))) == scanned(
            text::pieces(s, CharSet::Only(',')),
        ),
    decreases s.len(),
{
    if s.len() > 0 && text::is_white(s.last()) {
        let set = CharSet::Only(',');
        let w = s.last();
        let rest = s.drop_last();
        lemma_scanned_before_white(rest);
        text::lemma_pieces_without(rest, set, CharSet::Either('[', ']'));
        let a = text::pieces(s, set);
        let b = text::pieces(rest, set);
        text::lemma_trimmed_before_white(b.last(), w);
        lemma_scanned_alike(a, b);
    }
}

/// Square brackets, which bind the coaches of a unit, change nothing in what is read of a
/// train, wherever they stand.
pub proof fn law_brackets_change_nothing(short: Seq<char>)
    ensures
        scanned(
            text::pieces(
                text::trimmed(text::without(short, CharSet::Either('[', ']'))),
                CharSet::Only(','),
            ),
        ) == scanned(text::pieces(text::trimmed(short), CharSet::Only(','))),
{
    let brackets = CharSet::Either('[', ']');
    let comma = CharSet::Only(',');
    let bare = text::without(short, brackets);
    lemma_scanned_behind_white(short);
    lemma_scanned_before_white(text::trimmed_start(short));
    lemma_scanned_behind_white(bare);
    lemma_scanned_before_white(text::trimmed_start(bare));
    text::lemma_pieces_without(short, comma, brackets);
    let parts = text::pieces(short, comma);
    let others = text::pieces(bare, comma);
    assert forall|i: int| 0 <= i < parts.len() implies #[trigger] reading(parts[i]) == reading(
        others[i],
    ) by {
        lemma_reading_without_brackets(parts[i]);
    }
    lemma_scanned_alike(parts, others);
}

// ---------------------------------------------------------------------------
// What the notation means
// ---------------------------------------------------------------------------

/// A notation has none of the signs that part it, and no white space at its ends.
pub open spec fn bare_word(s: Seq<char>) -> bool {
    &&& s.len() > 0
    &&& forall|i: int|
        #![trigger s[i]]
        0 <= i < s.len() ==> s[i] != ':' && s[i] != '#' && s[i] != ';' && s[i] != '(' && s[i] != ')'
            && s[i] != ',' && s[i] != '@' && s[i] != '[' && s[i] != ']' && !text::is_white(s[i])
}

proof fn lemma_bare_word(s: Seq<char>)
    requires
        bare_word(s),
    ensures
        text::trimmed(s) == s,
        text::trimmed_start(s) == s,
{
    assert(!text::is_white(s[0]));
    assert(!text::is_white(s[s.len() - 1]));
}

proof fn lemma_nothing_taken_out(s: Seq<char>, set: CharSet)
    requires
        forall|i: int| 0 <= i < s.len() ==> !set.holds(#[trigger] s[i]),
    ensures
        text::without(s, set) == s,
    decreases s.len(),
{
    if s.len() > 0 {
        let t = s.drop_last();
        assert forall|i: int| 0 <= i < t.len() implies !set.holds(#[trigger] t[i]) by {
            assert(t[i] == s[i]);
        }
        lemma_nothing_taken_out(t, set);
        assert(!set.holds(s[s.len() - 1]));
        assert(t.push(s.last()) =~= s);
    }
}

proof fn lemma_cut_at(before: Seq<char>, c: char, after: Seq<char>)
    requires
        forall|i: int| 0 <= i < before.len() ==> #[trigger] before[i] != c,
    ensures
        text::cut(before + seq![c] + after, c) == Some((before, after)),
{
    let s = before + seq![c] + after;
    text::law_cut_is_at_the_first(s, c);
    assert(s[before.len() as int] == c);
    let (a, b) = text::cut(s, c)->0;
    if a.len() < before.len() {
        assert((a + seq![c] + b)[a.len() as int] == c);
        assert(s[a.len() as int] == before[a.len() as int]);
    } else if a.len() > before.len() {
        assert(a[before.len() as int] == (a + seq![c] + b)[before.len() as int]);
        assert(a.contains(c));
    } else {
        assert forall|i: int| 0 <= i < a.len() implies a[i] == before[i] by {
            assert((a + seq![c] + b)[i] == s[i]);
        }
        assert(a =~= before);
        assert(b =~= after) by {
            assert(s.len() == a.len() + 1 + b.len());
            assert forall|i: int| 0 <= i < b.len() implies b[i] == after[i] by {
                assert((a + seq![c] + b)[a.len() + 1 + i] == b[i]);
                assert(s[a.len() + 1 + i] == after[i]);
            }
        }
    }
}

proof fn lemma_not_cut(s: Seq<char>, c: char)
    requires
        forall|i: int| 0 <= i < s.len() ==> #[trigger] s[i] != c,
    ensures
        text::cut(s, c) is None,
{
    text::law_cut_is_at_the_first(s, c);
    if text::cut(s, c) is Some {
        let (a, b) = text::cut(s, c)->0;
        assert((a + seq![c] + b)[a.len() as int] == c);
    }
}

proof fn lemma_one_piece(s: Seq<char>, c: char)
    requires
        forall|i: int| 0 <= i < s.len() ==> #[trigger] s[i] != c,
    ensures
        text::pieces(s, CharSet::Only(c)) == seq![s],
    decreases s.len(),
{
    if s.len() > 0 {
        let t = s.drop_last();
        assert forall|i: int| 0 <= i < t.len() implies #[trigger] t[i] != c by {
            assert(t[i] == s[i]);
        }
        lemma_one_piece(t, c);
        assert(s[s.len() - 1] != c);
        assert(t.push(s.last()) =~= s);
        assert(text::pieces(s, CharSet::Only(c)) =~= seq![s]);
    } else {
        assert(s =~= Seq::empty());
        assert(text::pieces(s, CharSet::Only(c)) =~= seq![s]);
    }
}

/// A type alone is a coach of that type, without a number or services; it is padding
/// exactly if the type is F.
pub proof fn law_type_alone_is_a_coach(kind: Seq<char>)
    requires
        bare_word(kind),
    ensures
        ({
            let c = coach_of(kind);
            &&& c is Some
            &&& c->0.type_code == kind
            &&& c->0.order is None
            &&& c->0.services.len() == 0
            &&& !c->0.no_pass_left && !c->0.no_pass_right
            &&& c->0.is_padding <==> kind == seq!['F'] || kind == seq!['f']
        }),
{
    lemma_bare_word(kind);
    lemma_nothing_taken_out(kind, CharSet::Either('(', ')'));
    lemma_not_cut(kind, '#');
    lemma_not_cut(kind, ':');
    lemma_no_bracket(kind);
    lemma_padding_code(kind);
}

proof fn lemma_no_bracket(s: Seq<char>)
    requires
        forall|i: int| 0 <= i < s.len() ==> #[trigger] s[i] != '(' && s[i] != ')',
    ensures
        !s.contains('('),
        !s.contains(')'),
{
}

proof fn lemma_padding_code(kind: Seq<char>)
    ensures
        text::uppered(kind) == "F"@ <==> kind == seq!['F'] || kind == seq!['f'],
{
    reveal_strlit("F");
    let u = text::uppered(kind);
    assert("F"@.len() == 1 && "F"@[0] == 'F');
    if u == "F"@ {
        assert(u.len() == kind.len());
        assert(u[0] == text::upper_char(kind[0]));
        if kind[0] == 'F' {
            assert(kind =~= seq!['F']);
        } else {
            assert(kind[0] == 'f');
            assert(kind =~= seq!['f']);
        }
    }
    if kind == seq!['F'] || kind == seq!['f'] {
        assert(u =~= "F"@);
    }
}

/// A type and a number with a colon between them, and behind a double cross a service, are
/// a coach of that type with that number and that service. A bracket before it or behind it
/// says that there is no passage there.
pub proof fn law_notation_of_a_coach(
    kind: Seq<char>,
    order: Seq<char>,
    service: Seq<char>,
    left: bool,
    right: bool,
)
    requires
        bare_word(kind),
        bare_word(order),
        bare_word(service),
    ensures
        ({
            let word = kind + seq![':'] + order + seq!['#'] + service;
            let token = if left {
                if right {
                    seq!['('] + word + seq![')']
                } else {
                    seq!['('] + word
                }
            } else if right {
                word + seq![')']
            } else {
                word
            };
            let c = coach_of(token);
            &&& c is Some
            &&& c->0.type_code == kind
            &&& c->0.order == Some(order)
            &&& c->0.services == seq![service]
            &&& c->0.no_pass_left == left
            &&& c->0.no_pass_right == right
            &&& c->0.is_padding <==> kind == seq!['F'] || kind == seq!['f']
        }),
{
    let set = CharSet::Either('(', ')');
    let vehicle = kind + seq![':'] + order;
    let word = vehicle + seq!['#'] + service;
    assert(word =~= kind + seq![':'] + order + seq!['#'] + service);
    let token = if left {
        if right {
            seq!['('] + word + seq![')']
        } else {
            seq!['('] + word
        }
    } else if right {
        word + seq![')']
    } else {
        word
    };
    assert forall|i: int| 0 <= i < word.len() implies #[trigger] word[i] != '(' && word[i] != ')' by {
        if i < kind.len() {
            assert(word[i] == kind[i]);
        } else if kind.len() < i < kind.len() + 1 + order.len() {
            assert(word[i] == order[i - kind.len() - 1]);
        } else if i > kind.len() + 1 + order.len() {
            assert(word[i] == service[i - kind.len() - order.len() - 2]);
        }
    }
    lemma_nothing_taken_out(word, set);
    lemma_no_bracket(word);
    let none = Seq::<char>::empty();
    assert(seq!['('].drop_last() =~= none);
    assert(seq![')'].drop_last() =~= none);
    assert(text::without(none, set) =~= none);
    assert(text::without(seq!['('], set) =~= none);
    assert(text::without(seq![')'], set) =~= none);
    text::lemma_without_joined(seq!['('], word, set);
    text::lemma_without_joined(word, seq![')'], set);
    text::lemma_without_joined(seq!['('] + word, seq![')'], set);
    assert(none + word =~= word);
    assert(word + none =~= word);
    assert(text::without(token, set) == word);
    assert(word[0] == kind[0]);
    assert(!text::is_white(kind[0]));
    assert(word.last() == service[service.len() - 1]);
    assert(!text::is_white(service[service.len() - 1]));
    assert(text::trimmed(word) == word);
    assert forall|i: int| 0 <= i < vehicle.len() implies #[trigger] vehicle[i] != '#' by {
        if i < kind.len() {
            assert(vehicle[i] == kind[i]);
        } else if i > kind.len() {
            assert(vehicle[i] == order[i - kind.len() - 1]);
        }
    }
    lemma_cut_at(vehicle, '#', service);
    lemma_bare_word(service);
    lemma_bare_word(kind);
    lemma_bare_word(order);
    assert(vehicle[0] == kind[0]);
    assert(vehicle.last() == order[order.len() - 1]);
    assert(!text::is_white(order[order.len() - 1]));
    assert(text::trimmed(vehicle) == vehicle);
    lemma_one_piece(service, ';');
    let parts = text::all_trimmed(seq![service]);
    assert(parts =~= seq![service]);
    assert(parts.drop_last() =~= Seq::empty());
    assert(text::non_empty(Seq::empty()) =~= Seq::<Seq<char>>::empty());
    assert(text::non_empty(parts) =~= seq![service]);
    lemma_cut_at(kind, ':', order);
    lemma_padding_code(kind);
    assert(left ==> token[0] == '(');
    assert(right ==> token[token.len() - 1] == ')');
    if !left && token.contains('(') {
        let k = choose|k: int| 0 <= k < token.len() && token[k] == '(';
        if k < word.len() {
            assert(word[k] == '(');
        }
    }
    if !right && token.contains(')') {
        let k = choose|k: int| 0 <= k < token.len() && token[k] == ')';
        if left {
            assert(k == 0 || word[k - 1] == ')');
        } else {
            assert(word[k] == ')');
        }
    }
}

/// Several services stand behind each other with semicolons between them, and each is one
/// of the coach's.
pub proof fn law_services_are_listed(core: Seq<char>)
    ensures
        match text::cut(core, '#') {
            Some((_, list)) => vehicle_and_services(core).1 == text::non_empty(
                text::all_trimmed(text::pieces(text::trimmed(list), CharSet::Only(';'))),
            ),
            None => vehicle_and_services(core).1.len() == 0,
        },
        forall|i: int|
            #![trigger vehicle_and_services(core).1[i]]
            0 <= i < vehicle_and_services(core).1.len() ==> vehicle_and_services(core).1[i].len()
                > 0,
{
    match text::cut(core, '#') {
        Some((_, list)) => {
            lemma_non_empty(
                text::all_trimmed(text::pieces(text::trimmed(list), CharSet::Only(';'))),
            );
        },
        None => {},
    }
}

proof fn lemma_non_empty(parts: Seq<Seq<char>>)
    ensures
        forall|i: int|
            0 <= i < text::non_empty(parts).len() ==> (#[trigger] text::non_empty(parts)[i]).len()
                > 0,
    decreases parts.len(),
{
    if parts.len() > 0 {
        let before = text::non_empty(parts.drop_last());
        lemma_non_empty(parts.drop_last());
        assert forall|i: int| 0 <= i < text::non_empty(parts).len() implies (
        #[trigger] text::non_empty(parts)[i]).len() > 0 by {
            if i < before.len() {
                assert(text::non_empty(parts)[i] == before[i]);
            }
        }
    }
}

/// A sector is marked by an at sign and a letter. The marker is taken out of the notation
/// and tells the sector, in upper case.
pub proof fn law_markers_are_taken_out(before: Seq<char>, letter: char, after: Seq<char>)
    requires
        forall|i: int| 0 <= i < before.len() ==> #[trigger] before[i] != '@',
    ensures
        markers(before).len() == 0,
        unmarked(before) == before,
        text::is_alpha(letter) ==> markers(before + seq!['@', letter] + after) == seq![
            text::upper_char(letter),
        ] + markers(after),
        text::is_alpha(letter) ==> unmarked(before + seq!['@', letter] + after) == before
            + unmarked(after),
        !text::is_alpha(letter) && letter != '@' ==> unmarked(before + seq!['@', letter] + after)
            == before + seq!['@', letter] + unmarked(after),
    decreases before.len(),
{
    let s = before + seq!['@', letter] + after;
    if before.len() == 0 {
        assert(s =~= seq!['@', letter] + after);
        assert(s[0] == '@' && s[1] == letter);
        assert(s.skip(2) =~= after);
        assert(s.skip(1).skip(1) =~= after);
        assert(s.skip(1)[0] == letter);
        assert(unmarked(before) =~= before);
        if text::is_alpha(letter) {
            assert(unmarked(s) =~= before + unmarked(after));
        } else if letter != '@' {
            assert(unmarked(s.skip(1)) =~= seq![letter] + unmarked(after));
            assert(unmarked(s) =~= before + seq!['@', letter] + unmarked(after));
        }
    } else {
        let rest = before.skip(1);
        assert forall|i: int| 0 <= i < rest.len() implies #[trigger] rest[i] != '@' by {
            assert(rest[i] == before[i + 1]);
        }
        law_markers_are_taken_out(rest, letter, after);
        assert(before[0] != '@');
        assert(s[0] == before[0]);
        assert(s.skip(1) =~= rest + seq!['@', letter] + after);
        assert(seq![before[0]] + rest =~= before);
        assert(unmarked(before) =~= before);
        if text::is_alpha(letter) {
            assert(unmarked(s) =~= before + unmarked(after));
        } else if letter != '@' {
            assert(unmarked(s) =~= before + seq!['@', letter] + unmarked(after));
        }
    }
}

/// One part more of a notation keeps the coaches before it, and adds a coach exactly if it
/// has one besides its markers. The coach stands at the last sector that was marked since
/// the coach before it.
pub proof fn law_part_adds_its_coach(parts: Seq<Seq<char>>, more: Seq<char>)
    ensures
        ({
            let before = scanned(parts);
            let after = scanned(parts.push(more));
            let bare = text::without(text::trimmed(more), CharSet::Either('[', ']'));
            let found = markers(bare);
            let coach = coach_of(text::trimmed(unmarked(bare)));
            let sector = if found.len() > 0 {
                Some(found[found.len() - 1])
            } else {
                before.pending
            };
            &&& scanned(Seq::empty()).coaches.len() == 0
            &&& scanned(Seq::empty()).markers.len() == 0
            &&& scanned(Seq::empty()).pending is None
            &&& after.markers == before.markers + found
            &&& after.coaches.take(before.coaches.len() as int) == before.coaches
            &&& coach is None ==> after.coaches == before.coaches && after.pending == sector
            &&& coach is Some ==> {
                let c = after.coaches.last();
                &&& after.coaches.len() == before.coaches.len() + 1
                &&& after.pending is None
                &&& c.sector == sector
                &&& c.type_code == coach->0.type_code
                &&& c.order == coach->0.order
                &&& c.services == coach->0.services
                &&& c.no_pass_left == coach->0.no_pass_left
                &&& c.no_pass_right == coach->0.no_pass_right
                &&& c.is_padding == coach->0.is_padding
            }
        }),
{
    assert(parts.push(more).drop_last() =~= parts);
    let before = scanned(parts);
    let after = scanned(parts.push(more));
    assert(after.coaches.take(before.coaches.len() as int) =~= before.coaches);
}

/// The real coaches are those that are no padding, in order.
pub proof fn law_real_coaches_are_the_others(coaches: Seq<FormationCoachView>)
    ensures
        real_coaches(coaches) == coaches.filter(|c: FormationCoachView| !c.is_padding),
    decreases coaches.len(),
{
    reveal(Seq::filter);
    if coaches.len() > 0 {
        law_real_coaches_are_the_others(coaches.drop_last());
    }
}

/// The padding at an end of a train goes up to its first coach from there that is none.
pub proof fn law_padding_ends_at_a_coach(coaches: Seq<FormationCoachView>)
    ensures
        front_padding(coaches) <= coaches.len(),
        forall|i: int| 0 <= i < front_padding(coaches) ==> (#[trigger] coaches[i]).is_padding,
        front_padding(coaches) < coaches.len() ==> !coaches[front_padding(coaches) as int].is_padding,
        rear_padding(coaches) <= coaches.len(),
        forall|i: int|
            coaches.len() - rear_padding(coaches) <= i < coaches.len() ==> (
            #[trigger] coaches[i]).is_padding,
        rear_padding(coaches) < coaches.len() ==> !coaches[coaches.len() - 1 - rear_padding(
            coaches,
        )].is_padding,
    decreases coaches.len(),
{
    lemma_front_padding(coaches);
    lemma_rear_padding(coaches);
}

proof fn lemma_front_padding(coaches: Seq<FormationCoachView>)
    ensures
        front_padding(coaches) <= coaches.len(),
        forall|i: int| 0 <= i < front_padding(coaches) ==> (#[trigger] coaches[i]).is_padding,
        front_padding(coaches) < coaches.len() ==> !coaches[front_padding(coaches) as int].is_padding,
    decreases coaches.len(),
{
    if coaches.len() > 0 && coaches[0].is_padding {
        let rest = coaches.drop_first();
        lemma_front_padding(rest);
        assert forall|i: int| 0 <= i < front_padding(coaches) implies (
        #[trigger] coaches[i]).is_padding by {
            if i > 0 {
                assert(rest[i - 1] == coaches[i]);
            }
        }
        if front_padding(coaches) < coaches.len() {
            assert(rest[front_padding(rest) as int] == coaches[front_padding(coaches) as int]);
        }
    }
}

proof fn lemma_rear_padding(coaches: Seq<FormationCoachView>)
    ensures
        rear_padding(coaches) <= coaches.len(),
        forall|i: int|
            coaches.len() - rear_padding(coaches) <= i < coaches.len() ==> (
            #[trigger] coaches[i]).is_padding,
        rear_padding(coaches) < coaches.len() ==> !coaches[coaches.len() - 1 - rear_padding(
            coaches,
        )].is_padding,
    decreases coaches.len(),
{
    if coaches.len() > 0 && coaches.last().is_padding {
        let rest = coaches.drop_last();
        lemma_rear_padding(rest);
        assert forall|i: int|
            coaches.len() - rear_padding(coaches) <= i < coaches.len() implies (
        #[trigger] coaches[i]).is_padding by {
            if i < rest.len() {
                assert(rest[i] == coaches[i]);
            }
        }
        if rear_padding(coaches) < coaches.len() {
            assert(rest[rest.len() - 1 - rear_padding(rest)] == coaches[coaches.len() - 1
                - rear_padding(coaches)]);
        }
    }
}

} // verus!
