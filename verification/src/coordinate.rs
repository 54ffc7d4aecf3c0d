//! Geographic coordinates in decimal notation.

use vstd::prelude::*;

use crate::duplicate::Duplicate;
use crate::text;

verus! {

/// `s` without one leading sign.
pub open spec fn unsigned_part(s: Seq<char>) -> Seq<char> {
    if s.len() > 0 && (s[0] == '+' || s[0] == '-') {
        s.drop_first()
    } else {
        s
    }
}

/// Digits, with at most one decimal point and at least one digit.
pub open spec fn is_mantissa(s: Seq<char>) -> bool {
    match text::cut(s, '.') {
        Some((whole, fraction)) => {
            &&& text::all_digits(whole)
            &&& text::all_digits(fraction)
            &&& whole.len() + fraction.len() > 0
        },
        None => s.len() > 0 && text::all_digits(s),
    }
}

/// An optional sign and at least one digit.
pub open spec fn is_exponent(s: Seq<char>) -> bool {
    unsigned_part(s).len() > 0 && text::all_digits(unsigned_part(s))
}

/// The notations of a floating-point number, in lower case and without a sign.
pub open spec fn is_magnitude(s: Seq<char>) -> bool {
    ||| s == "inf"@
    ||| s == "infinity"@
    ||| s == "nan"@
    ||| match text::cut(s, 'e') {
        Some((mantissa, exponent)) => is_mantissa(mantissa) && is_exponent(exponent),
        None => is_mantissa(s),
    }
}

/// The notations of a floating-point number: letters in either case, and an optional
/// sign in front.
pub open spec fn is_float_notation(s: Seq<char>) -> bool {
    is_magnitude(unsigned_part(text::lowered(s)))
}

/// Removes one leading sign.
fn strip_sign(s: &str) -> (r: String)
    ensures
        r@ == unsigned_part(s@),
{
    let v = text::chars_of(s);
    let n: usize = v.len();
    if n > 0 && (v[0] == '+' || v[0] == '-') {
        assert(s@.drop_first() =~= s@.subrange(1, n as int));
        text::text_between(&v, 1, n)
    } else {
        assert(s@ =~= s@.subrange(0, n as int));
        text::text_between(&v, 0, n)
    }
}

/// Tests for a mantissa.
fn check_mantissa(s: &str) -> (r: bool)
    ensures
        r == is_mantissa(s@),
{
    match text::split_once(s, '.') {
        Some((whole, fraction)) => {
            text::only_digits(whole.as_str()) && text::only_digits(fraction.as_str()) && !(
            whole.as_str().is_empty() && fraction.as_str().is_empty())
        },
        None => !s.is_empty() && text::only_digits(s),
    }
}

/// Tests for the notation of a floating-point number.
pub fn check_float_notation(s: &str) -> (r: bool)
    ensures
        r == is_float_notation(s@),
{
    let lower = text::to_lower(s);
    let body = strip_sign(lower.as_str());
    let b = body.as_str();
    if text::same(b, "inf") || text::same(b, "infinity") || text::same(b, "nan") {
        return true;
    }
    match text::split_once(b, 'e') {
        Some((mantissa, exponent)) => {
            let digits = strip_sign(exponent.as_str());
            check_mantissa(mantissa.as_str()) && !digits.as_str().is_empty() && text::only_digits(
                digits.as_str(),
            )
        },
        None => check_mantissa(b),
    }
}

/// A latitude or longitude, in the notation in which it was received.
#[derive(Debug)]
pub struct Coordinate {
    text: String,
}

impl DeepView for Coordinate {
    type V = Seq<char>;

    closed spec fn deep_view(&self) -> Seq<char> {
        self.text@
    }
}

impl Coordinate {
    #[verifier::type_invariant]
    spec fn valid(self) -> bool {
        is_float_notation(self.text@)
    }

    /// Reads a coordinate; the whole text must denote a number.
    pub fn parse(s: &str) -> (r: Option<Coordinate>)
        ensures
            r.deep_view() == coordinate_value(s@),
    {
        if check_float_notation(s) {
            Some(Coordinate { text: s.to_owned() })
        } else {
            None
        }
    }

    /// The notation, which denotes a floating-point number.
    pub fn as_str(&self) -> (r: &str)
        ensures
            r@ == self.deep_view(),
            is_float_notation(r@),
    {
        proof {
            use_type_invariant(self);
        }
        self.text.as_str()
    }
}

/// The coordinate that a text denotes.
pub open spec fn coordinate_value(s: Seq<char>) -> Option<Seq<char>> {
    if is_float_notation(s) {
        Some(s)
    } else {
        None
    }
}

impl Clone for Coordinate {
    fn clone(&self) -> (r: Self)
        ensures
            r.deep_view() == self.deep_view(),
    {
        self.duplicate()
    }
}

impl Duplicate for Coordinate {
    fn duplicate(&self) -> (r: Self) {
        proof {
            use_type_invariant(self);
        }
        Coordinate { text: self.text.clone() }
    }
}

/// Digits are a coordinate, with or without a sign in front, and so are digits with a point
/// among or beside them; a coordinate is kept as it was read.
pub proof fn law_digits_are_coordinates(whole: Seq<char>, fraction: Seq<char>)
    requires
        text::all_digits(whole),
        text::all_digits(fraction),
        whole.len() > 0,
    ensures
        coordinate_value(whole) == Some(whole),
        coordinate_value(seq!['-'] + whole) == Some(seq!['-'] + whole),
        coordinate_value(seq!['+'] + whole) == Some(seq!['+'] + whole),
        coordinate_value(whole + seq!['.'] + fraction) == Some(whole + seq!['.'] + fraction),
        coordinate_value(seq!['-'] + whole + seq!['.'] + fraction) == Some(
            seq!['-'] + whole + seq!['.'] + fraction,
        ),
{
    let d = whole + seq!['.'] + fraction;
    lemma_plain(whole);
    lemma_plain(seq!['-'] + whole);
    lemma_plain(seq!['+'] + whole);
    lemma_plain(d);
    lemma_plain(seq!['-'] + d);
    assert(whole[0] != '+' && whole[0] != '-');
    assert(d[0] == whole[0]);
    assert((seq!['-'] + whole).drop_first() =~= whole);
    assert((seq!['+'] + whole).drop_first() =~= whole);
    assert((seq!['-'] + d).drop_first() =~= d);
    assert(seq!['-'] + whole + seq!['.'] + fraction =~= seq!['-'] + d);
    lemma_no_cut(whole, 'e');
    lemma_no_cut(whole, '.');
    lemma_no_cut(d, 'e');
    lemma_cut(whole, fraction);
}

/// Nothing at all is no coordinate, nor is a sign alone.
pub proof fn law_coordinates_have_digits(s: Seq<char>)
    ensures
        coordinate_value(Seq::empty()) is None,
        coordinate_value(s) is Some ==> coordinate_value(s) == Some(s),
        coordinate_value(s) is Some ==> s.len() > 0,
{
    let e = Seq::<char>::empty();
    reveal_strlit("inf");
    reveal_strlit("infinity");
    reveal_strlit("nan");
    assert("inf"@.len() == 3 && "infinity"@.len() == 8 && "nan"@.len() == 3);
    lemma_no_cut(e, 'e');
    lemma_no_cut(e, '.');
    lemma_plain(e);
    if s.len() == 0 {
        assert(s =~= e);
    }
}

/// Letters are no coordinate but for the one before an exponent and the words for what is no
/// number.
pub proof fn law_words_are_no_coordinates(s: Seq<char>, i: int)
    requires
        0 <= i < s.len(),
        !text::is_digit(s[i]) && s[i] != '.' && s[i] != '+' && s[i] != '-' && s[i] != 'e' && s[i]
            != 'E',
        text::lowered(s) != "inf"@ && text::lowered(s) != "infinity"@ && text::lowered(s) != "nan"@,
        s[0] != '+' && s[0] != '-',
    ensures
        coordinate_value(s) is None,
{
    let l = text::lowered(s);
    text::law_case_changes_letters_only(s, i);
    text::law_case_changes_letters_only(s, 0);
    text::law_cut_is_at_the_first(l, 'e');
    assert(l[i] != 'e' && l[i] != '.' && !text::is_digit(l[i]) && l[i] != '+' && l[i] != '-');
    match text::cut(l, 'e') {
        Some((m, x)) => {
            if i < m.len() {
                assert(l[i] == m[i]);
                lemma_mantissa_at(m, i);
            } else if i > m.len() {
                assert(l[i] == x[i - m.len() - 1]);
                let u = unsigned_part(x);
                if u.len() < x.len() {
                    if i - m.len() - 1 > 0 {
                        assert(u[i - m.len() - 2] == x[i - m.len() - 1]);
                    }
                }
            } else {
                assert(l[i] == 'e');
            }
        },
        None => {
            lemma_mantissa_at(l, i);
        },
    }
}

proof fn lemma_mantissa_at(m: Seq<char>, i: int)
    requires
        0 <= i < m.len(),
        !text::is_digit(m[i]),
        m[i] != '.',
    ensures
        !is_mantissa(m),
{
    text::law_cut_is_at_the_first(m, '.');
    match text::cut(m, '.') {
        Some((whole, fraction)) => {
            if i < whole.len() {
                assert(m[i] == whole[i]);
            } else if i > whole.len() {
                assert(m[i] == fraction[i - whole.len() - 1]);
            } else {
                assert(m[i] == '.');
            }
        },
        None => {},
    }
}

proof fn lemma_plain(s: Seq<char>)
    requires
        forall|i: int| 0 <= i < s.len() ==> !('A' <= #[trigger] s[i] <= 'Z'),
    ensures
        text::lowered(s) == s,
{
    assert(text::lowered(s) =~= s);
}

proof fn lemma_no_cut(s: Seq<char>, c: char)
    requires
        forall|i: int| 0 <= i < s.len() ==> #[trigger] s[i] != c,
    ensures
        text::cut(s, c) is None,
{
    text::law_cut_is_at_the_first(s, c);
    match text::cut(s, c) {
        Some((before, after)) => {
            assert(s[before.len() as int] == c);
        },
        None => {},
    }
}

proof fn lemma_cut(whole: Seq<char>, fraction: Seq<char>)
    requires
        text::all_digits(whole),
        text::all_digits(fraction),
    ensures
        text::cut(whole + seq!['.'] + fraction, '.') == Some((whole, fraction)),
{
    let d = whole + seq!['.'] + fraction;
    let n = whole.len() as int;
    text::law_cut_is_at_the_first(d, '.');
    assert(d[n] == '.');
    match text::cut(d, '.') {
        Some((before, after)) => {
            let k = before.len() as int;
            assert(d[k] == '.');
            if k < n {
                assert(d[k] == whole[k]);
            } else if k > n {
                assert(before[n] == d[n]);
                assert(before.contains('.'));
            }
            assert(before =~= d.take(n));
            assert(whole =~= d.take(n));
            assert(after =~= d.skip(n + 1));
            assert(fraction =~= d.skip(n + 1));
        },
        None => {
            assert(d.contains('.'));
        },
    }
}

/// A coordinate may have an exponent: behind the letter, in either case, stands at least one
/// digit, with or without a sign.
pub proof fn law_exponents_have_digits(whole: Seq<char>, exponent: Seq<char>)
    requires
        text::all_digits(whole),
        text::all_digits(exponent),
        whole.len() > 0,
    ensures
        exponent.len() > 0 ==> coordinate_value(whole + seq!['e'] + exponent) == Some(
            whole + seq!['e'] + exponent,
        ),
        exponent.len() > 0 ==> coordinate_value(whole + seq!['E', '-'] + exponent) == Some(
            whole + seq!['E', '-'] + exponent,
        ),
        exponent.len() == 0 ==> coordinate_value(whole + seq!['e'] + exponent) is None,
        exponent.len() == 0 ==> coordinate_value(whole + seq!['E', '-'] + exponent) is None,
{
    let a = whole + seq!['e'] + exponent;
    let b = whole + seq!['E', '-'] + exponent;
    let minus = seq!['-'] + exponent;
    let c = whole + seq!['e'] + minus;
    assert(text::lowered(a) =~= a);
    assert(text::lowered(b) =~= c);
    assert(a[0] == whole[0] && c[0] == whole[0]);
    lemma_cut_e(whole, exponent);
    lemma_cut_e(whole, minus);
    lemma_no_cut(whole, '.');
    assert(minus.drop_first() =~= exponent);
    reveal_strlit("inf");
    reveal_strlit("infinity");
    reveal_strlit("nan");
    assert("inf"@[0] == 'i' && "infinity"@[0] == 'i' && "nan"@[0] == 'n');
    if exponent.len() > 0 {
        assert(exponent[0] != '+' && exponent[0] != '-');
    }
}

proof fn lemma_cut_e(whole: Seq<char>, rest: Seq<char>)
    requires
        text::all_digits(whole),
    ensures
        text::cut(whole + seq!['e'] + rest, 'e') == Some((whole, rest)),
{
    let d = whole + seq!['e'] + rest;
    let n = whole.len() as int;
    text::law_cut_is_at_the_first(d, 'e');
    assert(d[n] == 'e');
    match text::cut(d, 'e') {
        Some((before, after)) => {
            let k = before.len() as int;
            assert(d[k] == 'e');
            if k < n {
                assert(d[k] == whole[k]);
            } else if k > n {
                assert(before[n] == d[n]);
                assert(before.contains('e'));
            }
            assert(before =~= d.take(n));
            assert(whole =~= d.take(n));
            assert(after =~= d.skip(n + 1));
            assert(rest =~= d.skip(n + 1));
        },
        None => {
            assert(d.contains('e'));
        },
    }
}

} // verus!
