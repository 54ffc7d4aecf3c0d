//! Text as a sequence of characters.
//!
//! The view of a `str` or `String` is a `Seq<char>`. The spec functions here say
//! what the usual text operations mean on that view, and each executable function
//! is proved to compute the spec function that its contract names.

use vstd::prelude::*;

verus! {

/// `String::push` appends one character.
pub assume_specification[ String::push ](s: &mut String, c: char)
    ensures
        final(s)@ == old(s)@.push(c),
;

// ---------------------------------------------------------------------------
// Characters
// ---------------------------------------------------------------------------

/// The Unicode `White_Space` property.
pub open spec fn is_white(c: char) -> bool {
    ||| '\u{9}' <= c <= '\u{d}'
    ||| c == '\u{20}'
    ||| c == '\u{85}'
    ||| c == '\u{a0}'
    ||| c == '\u{1680}'
    ||| '\u{2000}' <= c <= '\u{200a}'
    ||| c == '\u{2028}'
    ||| c == '\u{2029}'
    ||| c == '\u{202f}'
    ||| c == '\u{205f}'
    ||| c == '\u{3000}'
}

/// An ASCII decimal digit.
pub open spec fn is_digit(c: char) -> bool {
    '0' <= c <= '9'
}

/// An ASCII letter.
pub open spec fn is_alpha(c: char) -> bool {
    'a' <= c <= 'z' || 'A' <= c <= 'Z'
}

/// An ASCII letter or digit.
pub open spec fn is_alnum(c: char) -> bool {
    is_alpha(c) || is_digit(c)
}

/// The ASCII lower case form of a character; other characters stay as they are.
pub open spec fn lower_char(c: char) -> char {
    if 'A' <= c <= 'Z' {
        ((c as int) + 32) as char
    } else {
        c
    }
}

/// The ASCII upper case form of a character; other characters stay as they are.
pub open spec fn upper_char(c: char) -> char {
    if 'a' <= c <= 'z' {
        ((c as int) - 32) as char
    } else {
        c
    }
}

/// Tests for the Unicode `White_Space` property.
pub fn char_is_white(c: char) -> (r: bool)
    ensures
        r == is_white(c),
{
    ('\u{9}' <= c && c <= '\u{d}') || c == '\u{20}' || c == '\u{85}' || c == '\u{a0}' || c
        == '\u{1680}' || ('\u{2000}' <= c && c <= '\u{200a}') || c == '\u{2028}' || c == '\u{2029}'
        || c == '\u{202f}' || c == '\u{205f}' || c == '\u{3000}'
}

/// Tests for an ASCII digit.
pub fn char_is_digit(c: char) -> (r: bool)
    ensures
        r == is_digit(c),
{
    '0' <= c && c <= '9'
}

/// Tests for an ASCII letter.
pub fn char_is_alpha(c: char) -> (r: bool)
    ensures
        r == is_alpha(c),
{
    ('a' <= c && c <= 'z') || ('A' <= c && c <= 'Z')
}

/// Tests for an ASCII letter or digit.
pub fn char_is_alnum(c: char) -> (r: bool)
    ensures
        r == is_alnum(c),
{
    char_is_alpha(c) || char_is_digit(c)
}

/// ASCII lower case of one character.
pub fn char_to_lower(c: char) -> (r: char)
    ensures
        r == lower_char(c),
{
    if 'A' <= c && c <= 'Z' {
        ((c as u8) + 32) as char
    } else {
        c
    }
}

/// ASCII upper case of one character.
pub fn char_to_upper(c: char) -> (r: char)
    ensures
        r == upper_char(c),
{
    if 'a' <= c && c <= 'z' {
        ((c as u8) - 32) as char
    } else {
        c
    }
}

/// The sets of characters at which text is split or cleaned.
#[derive(Debug, Clone, Copy)]
pub enum CharSet {
    /// Exactly this character.
    Only(char),
    /// One of these two characters.
    Either(char, char),
    /// Everything but ASCII letters and digits.
    NotAlnum,
    /// Unicode white space.
    White,
}

impl CharSet {
    /// Membership of a character in the set.
    pub open spec fn holds(self, c: char) -> bool {
        match self {
            CharSet::Only(a) => c == a,
            CharSet::Either(a, b) => c == a || c == b,
            CharSet::NotAlnum => !is_alnum(c),
            CharSet::White => is_white(c),
        }
    }

    /// Tests membership of a character in the set.
    pub fn test(self, c: char) -> (r: bool)
        ensures
            r == self.holds(c),
    {
        match self {
            CharSet::Only(a) => c == a,
            CharSet::Either(a, b) => c == a || c == b,
            CharSet::NotAlnum => !char_is_alnum(c),
            CharSet::White => char_is_white(c),
        }
    }
}

// ---------------------------------------------------------------------------
// Meaning of the operations
// ---------------------------------------------------------------------------

/// The text in ASCII lower case.
pub open spec fn lowered(s: Seq<char>) -> Seq<char> {
    s.map_values(|c: char| lower_char(c))
}

/// The text in ASCII upper case.
pub open spec fn uppered(s: Seq<char>) -> Seq<char> {
    s.map_values(|c: char| upper_char(c))
}

/// The text without leading white space.
pub open spec fn trimmed_start(s: Seq<char>) -> Seq<char>
    decreases s.len(),
{
    if s.len() > 0 && is_white(s.first()) {
        trimmed_start(s.drop_first())
    } else {
        s
    }
}

/// The text without trailing white space.
pub open spec fn trimmed_end(s: Seq<char>) -> Seq<char>
    decreases s.len(),
{
    if s.len() > 0 && is_white(s.last()) {
        trimmed_end(s.drop_last())
    } else {
        s
    }
}

/// The text without white space at either end.
pub open spec fn trimmed(s: Seq<char>) -> Seq<char> {
    trimmed_end(trimmed_start(s))
}

/// The text without leading occurrences of `c`.
pub open spec fn stripped_start(s: Seq<char>, c: char) -> Seq<char>
    decreases s.len(),
{
    if s.len() > 0 && s.first() == c {
        stripped_start(s.drop_first(), c)
    } else {
        s
    }
}

/// `p` stands in `s` at position `i`.
pub open spec fn occurs_at(s: Seq<char>, p: Seq<char>, i: int) -> bool {
    0 <= i && i + p.len() <= s.len() && s.subrange(i, i + p.len()) =~= p
}

/// `p` stands somewhere in `s`.
pub open spec fn contains(s: Seq<char>, p: Seq<char>) -> bool {
    exists|i: int| occurs_at(s, p, i)
}

/// The first position at or after `i` at which `p` stands in `s`.
pub open spec fn find_from(s: Seq<char>, p: Seq<char>, i: int) -> Option<int>
    decreases s.len() - i,
{
    if i < 0 || i + p.len() > s.len() {
        None
    } else if occurs_at(s, p, i) {
        Some(i)
    } else {
        find_from(s, p, i + 1)
    }
}

/// `s` begins with `p`.
pub open spec fn starts(s: Seq<char>, p: Seq<char>) -> bool {
    occurs_at(s, p, 0)
}

/// `s` ends with `p`.
pub open spec fn ends(s: Seq<char>, p: Seq<char>) -> bool {
    occurs_at(s, p, s.len() - p.len())
}

/// The pieces of `s` between the characters of `set`; there is always one more
/// piece than there are such characters.
pub open spec fn pieces(s: Seq<char>, set: CharSet) -> Seq<Seq<char>>
    decreases s.len(),
{
    if s.len() == 0 {
        seq![Seq::<char>::empty()]
    } else {
        let before = pieces(s.drop_last(), set);
        if set.holds(s.last()) {
            before.push(Seq::<char>::empty())
        } else {
            before.update(before.len() - 1, before.last().push(s.last()))
        }
    }
}

/// The position of the first character of `s` that equals `c`.
pub open spec fn first_index(s: Seq<char>, c: char) -> Option<int>
    decreases s.len(),
{
    if s.len() == 0 {
        None
    } else {
        match first_index(s.drop_last(), c) {
            Some(i) => Some(i),
            None => if s.last() == c {
                Some(s.len() - 1)
            } else {
                None
            },
        }
    }
}

/// What stands before and after the first `c` in `s`.
pub open spec fn cut(s: Seq<char>, c: char) -> Option<(Seq<char>, Seq<char>)> {
    match first_index(s, c) {
        Some(i) => Some((s.take(i), s.skip(i + 1))),
        None => None,
    }
}

/// `s` without the characters of `set`.
pub open spec fn without(s: Seq<char>, set: CharSet) -> Seq<char>
    decreases s.len(),
{
    if s.len() == 0 {
        s
    } else if set.holds(s.last()) {
        without(s.drop_last(), set)
    } else {
        without(s.drop_last(), set).push(s.last())
    }
}

/// The non-empty texts of a list, in order.
pub open spec fn non_empty(parts: Seq<Seq<char>>) -> Seq<Seq<char>>
    decreases parts.len(),
{
    if parts.len() == 0 {
        parts
    } else if parts.last().len() == 0 {
        non_empty(parts.drop_last())
    } else {
        non_empty(parts.drop_last()).push(parts.last())
    }
}

/// The maximal runs of characters that are not white space.
pub open spec fn words(s: Seq<char>) -> Seq<Seq<char>> {
    non_empty(pieces(s, CharSet::White))
}

/// The texts of a list with `sep` between neighbours.
pub open spec fn joined(parts: Seq<Seq<char>>, sep: Seq<char>) -> Seq<char>
    decreases parts.len(),
{
    if parts.len() == 0 {
        Seq::empty()
    } else if parts.len() == 1 {
        parts[0]
    } else {
        joined(parts.drop_last(), sep) + sep + parts.last()
    }
}

/// `s` from position `i` on, with each occurrence of `p`, found from left to
/// right without overlap, replaced by `q`.
pub open spec fn replaced_from(s: Seq<char>, p: Seq<char>, q: Seq<char>, i: int) -> Seq<char>
    decreases s.len() - i,
{
    if i < 0 || i >= s.len() || p.len() == 0 {
        Seq::empty()
    } else if occurs_at(s, p, i) {
        q + replaced_from(s, p, q, i + p.len())
    } else {
        seq![s[i]] + replaced_from(s, p, q, i + 1)
    }
}

/// `s` with each occurrence of `p` replaced by `q`, for a non-empty `p`.
pub open spec fn replaced(s: Seq<char>, p: Seq<char>, q: Seq<char>) -> Seq<char> {
    replaced_from(s, p, q, 0)
}

/// Some character of `s` is an ASCII digit.
pub open spec fn any_digit(s: Seq<char>) -> bool {
    exists|i: int| 0 <= i < s.len() && is_digit(#[trigger] s[i])
}

/// Every character of `s` is an ASCII digit.
pub open spec fn all_digits(s: Seq<char>) -> bool {
    forall|i: int| 0 <= i < s.len() ==> is_digit(#[trigger] s[i])
}

/// Some character of `s` is an ASCII letter.
pub open spec fn any_alpha(s: Seq<char>) -> bool {
    exists|i: int| 0 <= i < s.len() && is_alpha(#[trigger] s[i])
}

/// The decimal digit of a number below ten.
pub open spec fn digit_char(d: int) -> char {
    (d + 48) as char
}

/// The decimal notation of a natural number.
pub open spec fn decimal(n: nat) -> Seq<char>
    decreases n,
{
    if n < 10 {
        seq![digit_char(n as int)]
    } else {
        decimal(n / 10).push(digit_char((n % 10) as int))
    }
}

/// The decimal notation of an integer.
pub open spec fn decimal_int(n: int) -> Seq<char> {
    if n < 0 {
        seq!['-'] + decimal((-n) as nat)
    } else {
        decimal(n as nat)
    }
}

/// The number that a sequence of decimal digits denotes.
pub open spec fn digits_value(s: Seq<char>) -> nat
    decreases s.len(),
{
    if s.len() == 0 {
        0
    } else {
        (digits_value(s.drop_last()) * 10 + (s.last() as int - 48)) as nat
    }
}

/// The number that `s` denotes: digits, with an optional plus sign before them.
pub open spec fn unsigned_value(s: Seq<char>) -> Option<nat> {
    let body = if s.len() > 0 && s[0] == '+' {
        s.drop_first()
    } else {
        s
    };
    if body.len() > 0 && all_digits(body) {
        Some(digits_value(body))
    } else {
        None
    }
}

/// `unsigned_value`, as far as it is at most `max`.
pub open spec fn unsigned_up_to(s: Seq<char>, max: nat) -> Option<nat> {
    match unsigned_value(s) {
        Some(n) if n <= max => Some(n),
        _ => None,
    }
}

// ---------------------------------------------------------------------------
// Conversions
// ---------------------------------------------------------------------------

/// The characters of a text.
pub fn chars_of(s: &str) -> (r: Vec<char>)
    ensures
        r@ == s@,
{
    let mut out: Vec<char> = Vec::new();
    for c in it: s.chars()
        invariant
            out@ == it.seq().take(it.index()),
            it.seq() == s@,
    {
        out.push(c);
    }
    out
}

/// The text made of the characters from position `i` up to position `j`.
pub fn text_between(v: &Vec<char>, i: usize, j: usize) -> (r: String)
    requires
        i <= j <= v@.len(),
    ensures
        r@ == v@.subrange(i as int, j as int),
{
    let mut out = String::new();
    let mut k: usize = i;
    while k < j
        invariant
            i <= k <= j <= v@.len(),
            out@ == v@.subrange(i as int, k as int),
        decreases j - k,
    {
        out.push(v[k]);
        k += 1;
        assert(v@.subrange(i as int, k as int) =~= v@.subrange(i as int, k - 1).push(v@[k - 1]));
    }
    out
}

/// The text made of one character.
pub fn text_of_char(c: char) -> (r: String)
    ensures
        r@ == seq![c],
{
    let mut out = String::new();
    out.push(c);
    assert(out@ =~= seq![c]);
    out
}

/// The views of equal encodings are equal.
proof fn lemma_encoding_injective(a: Seq<char>, b: Seq<char>)
    requires
        vstd::utf8::encode_utf8(a) == vstd::utf8::encode_utf8(b),
    ensures
        a == b,
{
    vstd::utf8::encode_utf8_decode_utf8(a);
    vstd::utf8::encode_utf8_decode_utf8(b);
}

/// Equality of texts.
pub fn same(a: &str, b: &str) -> (r: bool)
    ensures
        r == (a@ == b@),
{
    let x = a.as_bytes();
    let y = b.as_bytes();
    if x.len() != y.len() {
        return false;
    }
    let mut i: usize = 0;
    while i < x.len()
        invariant
            x@.len() == y@.len(),
            x@ == vstd::utf8::encode_utf8(a@),
            y@ == vstd::utf8::encode_utf8(b@),
            i <= x@.len(),
            forall|k: int| 0 <= k < i ==> x@[k] == y@[k],
        decreases x@.len() - i,
    {
        if x[i] != y[i] {
            return false;
        }
        i += 1;
    }
    proof {
        assert(x@ =~= y@);
        lemma_encoding_injective(a@, b@);
    }
    true
}

/// Equality of optional texts.
pub fn same_option(a: &Option<String>, b: &Option<String>) -> (r: bool)
    ensures
        r == (a.deep_view() == b.deep_view()),
{
    match (a, b) {
        (Some(x), Some(y)) => same(x.as_str(), y.as_str()),
        (None, None) => true,
        _ => false,
    }
}

// ---------------------------------------------------------------------------
// Operations
// ---------------------------------------------------------------------------

/// ASCII lower case.
pub fn to_lower(s: &str) -> (r: String)
    ensures
        r@ == lowered(s@),
{
    let v = chars_of(s);
    let mut out = String::new();
    let mut i: usize = 0;
    while i < v.len()
        invariant
            v@ == s@,
            i <= v@.len(),
            out@ == lowered(s@).take(i as int),
        decreases v@.len() - i,
    {
        out.push(char_to_lower(v[i]));
        i += 1;
        assert(out@ =~= lowered(s@).take(i as int));
    }
    assert(lowered(s@).take(i as int) =~= lowered(s@));
    out
}

/// ASCII upper case.
pub fn to_upper(s: &str) -> (r: String)
    ensures
        r@ == uppered(s@),
{
    let v = chars_of(s);
    let mut out = String::new();
    let mut i: usize = 0;
    while i < v.len()
        invariant
            v@ == s@,
            i <= v@.len(),
            out@ == uppered(s@).take(i as int),
        decreases v@.len() - i,
    {
        out.push(char_to_upper(v[i]));
        i += 1;
        assert(out@ =~= uppered(s@).take(i as int));
    }
    assert(uppered(s@).take(i as int) =~= uppered(s@));
    out
}

/// Removes white space at both ends.
pub fn trim(s: &str) -> (r: String)
    ensures
        r@ == trimmed(s@),
{
    let v = chars_of(s);
    let mut i: usize = 0;
    assert(v@.skip(0) =~= v@);
    while i < v.len() && char_is_white(v[i])
        invariant
            i <= v@.len(),
            trimmed_start(v@) == trimmed_start(v@.skip(i as int)),
        decreases v@.len() - i,
    {
        assert(v@.skip(i as int).drop_first() =~= v@.skip(i + 1));
        i += 1;
    }
    let ghost rest = v@.skip(i as int);
    assert(trimmed_start(v@) == rest);
    let mut j: usize = v.len();
    assert(rest.take(j - i) =~= rest);
    while i < j && char_is_white(v[j - 1])
        invariant
            i <= j <= v@.len(),
            rest == v@.skip(i as int),
            trimmed_end(rest) == trimmed_end(rest.take(j - i)),
        decreases j,
    {
        assert(rest.take(j - i).drop_last() =~= rest.take(j - i - 1));
        j -= 1;
    }
    assert(rest.take(j - i) =~= v@.subrange(i as int, j as int));
    text_between(&v, i, j)
}

/// Removes leading occurrences of one character.
pub fn strip_start(s: &str, c: char) -> (r: String)
    ensures
        r@ == stripped_start(s@, c),
{
    let v = chars_of(s);
    let mut i: usize = 0;
    assert(v@.skip(0) =~= v@);
    while i < v.len() && v[i] == c
        invariant
            i <= v@.len(),
            stripped_start(v@, c) == stripped_start(v@.skip(i as int), c),
        decreases v@.len() - i,
    {
        assert(v@.skip(i as int).drop_first() =~= v@.skip(i + 1));
        i += 1;
    }
    assert(v@.skip(i as int) =~= v@.subrange(i as int, v@.len() as int));
    let n: usize = v.len();
    text_between(&v, i, n)
}

/// Whether `p` stands in `v` at position `i`.
fn stands_at(v: &Vec<char>, p: &Vec<char>, i: usize) -> (r: bool)
    ensures
        r == occurs_at(v@, p@, i as int),
{
    if i > v.len() || p.len() > v.len() - i {
        return false;
    }
    let n: usize = v.len();
    let mut k: usize = 0;
    while k < p.len()
        invariant
            k <= p@.len(),
            n == v@.len(),
            i + p@.len() <= n,
            forall|m: int| 0 <= m < k ==> v@[i + m] == p@[m],
        decreases p@.len() - k,
    {
        if v[i + k] != p[k] {
            assert(v@.subrange(i as int, i + p@.len())[k as int] != p@[k as int]);
            return false;
        }
        k += 1;
    }
    assert(v@.subrange(i as int, i + p@.len()) =~= p@);
    true
}

/// A pattern stands in a text exactly if a first position is found.
pub proof fn lemma_find_contains(s: Seq<char>, p: Seq<char>, i: int)
    requires
        0 <= i,
    ensures
        find_from(s, p, i) matches Some(k) ==> i <= k && occurs_at(s, p, k) && (forall|m: int|
            i <= m < k ==> !occurs_at(s, p, m)),
        find_from(s, p, i) is None ==> (forall|m: int| i <= m ==> !occurs_at(s, p, m)),
    decreases s.len() - i,
{
    if i + p.len() <= s.len() && !occurs_at(s, p, i) {
        lemma_find_contains(s, p, i + 1);
    }
}

/// The first position of `p` in `v` at or after `start`.
pub fn find(v: &Vec<char>, p: &Vec<char>, start: usize) -> (r: Option<usize>)
    ensures
        match r {
            Some(k) => find_from(v@, p@, start as int) == Some(k as int) && start <= k && k
                + p@.len() <= v@.len(),
            None => find_from(v@, p@, start as int) is None,
        },
{
    let mut i: usize = start;
    while i <= v.len() && p.len() <= v.len() - i
        invariant
            start <= i,
            find_from(v@, p@, start as int) == find_from(v@, p@, i as int),
        decreases v@.len() + 1 - i,
    {
        if stands_at(v, p, i) {
            return Some(i);
        }
        if i == v.len() {
            return None;
        }
        i += 1;
    }
    None
}

/// Whether `p` stands somewhere in `s`.
pub fn has(s: &str, p: &str) -> (r: bool)
    ensures
        r == contains(s@, p@),
{
    let v = chars_of(s);
    let w = chars_of(p);
    proof {
        lemma_find_contains(s@, p@, 0);
    }
    match find(&v, &w, 0) {
        Some(_) => true,
        None => {
            assert forall|m: int| !occurs_at(s@, p@, m) by {
                if m >= 0 {
                    assert(!occurs_at(s@, p@, m));
                }
            }
            false
        },
    }
}

/// Whether `s` contains the character `c`.
pub fn has_char(s: &str, c: char) -> (r: bool)
    ensures
        r == s@.contains(c),
{
    let v = chars_of(s);
    let mut i: usize = 0;
    while i < v.len()
        invariant
            v@ == s@,
            i <= v@.len(),
            forall|k: int| 0 <= k < i ==> v@[k] != c,
        decreases v@.len() - i,
    {
        if v[i] == c {
            return true;
        }
        i += 1;
    }
    false
}

/// Whether `s` begins with `p`.
pub fn has_prefix(s: &str, p: &str) -> (r: bool)
    ensures
        r == starts(s@, p@),
{
    let v = chars_of(s);
    let w = chars_of(p);
    stands_at(&v, &w, 0)
}

/// Whether `s` ends with `p`.
pub fn has_suffix(s: &str, p: &str) -> (r: bool)
    ensures
        r == ends(s@, p@),
{
    let v = chars_of(s);
    let w = chars_of(p);
    if w.len() > v.len() {
        return false;
    }
    stands_at(&v, &w, v.len() - w.len())
}

/// Splits a text at the characters of a set.
pub fn split(s: &str, set: CharSet) -> (r: Vec<String>)
    ensures
        r.deep_view() == pieces(s@, set),
        r@.len() >= 1,
{
    let v = chars_of(s);
    let mut out: Vec<String> = Vec::new();
    let mut cur = String::new();
    let mut i: usize = 0;
    assert(pieces(v@.take(0), set) =~= out.deep_view().push(cur@));
    while i < v.len()
        invariant
            v@ == s@,
            i <= v@.len(),
            pieces(v@.take(i as int), set) == out.deep_view().push(cur@),
        decreases v@.len() - i,
    {
        let c = v[i];
        let ghost before = out.deep_view();
        let ghost cur0 = cur@;
        assert(v@.take(i + 1).drop_last() =~= v@.take(i as int));
        assert(v@.take(i + 1).last() == c);
        if set.test(c) {
            out.push(cur);
            cur = String::new();
            assert(out.deep_view() =~= before.push(cur0));
            assert(pieces(v@.take(i + 1), set) =~= out.deep_view().push(cur@));
        } else {
            cur.push(c);
            assert(pieces(v@.take(i + 1), set) =~= out.deep_view().push(cur@));
        }
        i += 1;
    }
    assert(v@.take(i as int) =~= v@);
    let ghost before = out.deep_view();
    let ghost cur0 = cur@;
    out.push(cur);
    assert(out.deep_view() =~= before.push(cur0));
    out
}

/// The non-empty texts of a list.
pub fn keep_non_empty(parts: &Vec<String>) -> (r: Vec<String>)
    ensures
        r.deep_view() == non_empty(parts.deep_view()),
{
    let mut out: Vec<String> = Vec::new();
    let mut i: usize = 0;
    let ghost all = parts.deep_view();
    assert(out.deep_view() =~= all.take(0));
    while i < parts.len()
        invariant
            all == parts.deep_view(),
            i <= parts@.len(),
            out.deep_view() == non_empty(all.take(i as int)),
        decreases parts@.len() - i,
    {
        let ghost before = out.deep_view();
        assert(all.take(i + 1).drop_last() =~= all.take(i as int));
        assert(all.take(i + 1).last() == parts@[i as int]@);
        if !parts[i].as_str().is_empty() {
            out.push(parts[i].clone());
            assert(out.deep_view() =~= before.push(parts@[i as int]@));
        }
        i += 1;
    }
    assert(all.take(i as int) =~= all);
    out
}

/// Splits a text into its words.
pub fn split_words(s: &str) -> (r: Vec<String>)
    ensures
        r.deep_view() == words(s@),
{
    let parts = split(s, CharSet::White);
    keep_non_empty(&parts)
}

/// Splits a text at the first occurrence of a character.
pub fn split_once(s: &str, c: char) -> (r: Option<(String, String)>)
    ensures
        r.deep_view() == cut(s@, c),
{
    let v = chars_of(s);
    let mut i: usize = 0;
    while i < v.len()
        invariant
            v@ == s@,
            i <= v@.len(),
            first_index(v@.take(i as int), c) is None,
        decreases v@.len() - i,
    {
        assert(v@.take(i + 1).drop_last() =~= v@.take(i as int));
        if v[i] == c {
            proof {
                lemma_first_index_extends(v@, c, i + 1);
                assert(v@.take(i as int) =~= v@.subrange(0, i as int));
                assert(v@.skip(i + 1) =~= v@.subrange(i + 1, v@.len() as int));
            }
            let n: usize = v.len();
            return Some((text_between(&v, 0, i), text_between(&v, i + 1, n)));
        }
        i += 1;
    }
    assert(v@.take(i as int) =~= v@);
    None
}

/// The first position found in a prefix is the first position of the whole.
proof fn lemma_first_index_extends(s: Seq<char>, c: char, n: int)
    requires
        0 <= n <= s.len(),
        first_index(s.take(n), c) is Some,
    ensures
        first_index(s, c) == first_index(s.take(n), c),
    decreases s.len(),
{
    if n < s.len() {
        assert(s.drop_last().take(n) =~= s.take(n));
        lemma_first_index_extends(s.drop_last(), c, n);
    } else {
        assert(s.take(n) =~= s);
    }
}

/// Removes the characters of a set.
pub fn remove_chars(s: &str, set: CharSet) -> (r: String)
    ensures
        r@ == without(s@, set),
{
    let v = chars_of(s);
    let mut out = String::new();
    let mut i: usize = 0;
    assert(v@.take(0) =~= Seq::<char>::empty());
    while i < v.len()
        invariant
            v@ == s@,
            i <= v@.len(),
            out@ == without(v@.take(i as int), set),
        decreases v@.len() - i,
    {
        assert(v@.take(i + 1).drop_last() =~= v@.take(i as int));
        if !set.test(v[i]) {
            out.push(v[i]);
        }
        i += 1;
    }
    assert(v@.take(i as int) =~= v@);
    out
}

/// Joins the texts of a list.
pub fn join(parts: &Vec<String>, sep: &str) -> (r: String)
    ensures
        r@ == joined(parts.deep_view(), sep@),
{
    let ghost all = parts.deep_view();
    let mut out = String::new();
    let mut i: usize = 0;
    while i < parts.len()
        invariant
            all == parts.deep_view(),
            i <= parts@.len(),
            out@ == joined(all.take(i as int), sep@),
        decreases parts@.len() - i,
    {
        assert(all.take(i + 1).drop_last() =~= all.take(i as int));
        assert(all.take(i + 1).last() == parts@[i as int]@);
        if i > 0 {
            out.append(sep);
            out.append(parts[i].as_str());
        } else {
            out.append(parts[i].as_str());
            assert(out@ =~= parts@[0]@);
            assert(all.take(1)[0] == parts@[0]@);
        }
        i += 1;
    }
    assert(all.take(i as int) =~= all);
    out
}

/// Replaces each occurrence of a non-empty pattern.
pub fn replace(s: &str, p: &str, q: &str) -> (r: String)
    requires
        p@.len() > 0,
    ensures
        r@ == replaced(s@, p@, q@),
{
    let v = chars_of(s);
    let w = chars_of(p);
    let mut out = String::new();
    let mut i: usize = 0;
    while i < v.len()
        invariant
            v@ == s@,
            w@ == p@,
            p@.len() > 0,
            i <= v@.len(),
            replaced(s@, p@, q@) =~= out@ + replaced_from(s@, p@, q@, i as int),
        decreases v@.len() - i,
    {
        if stands_at(&v, &w, i) {
            out.append(q);
            i += w.len();
        } else {
            out.push(v[i]);
            i += 1;
        }
    }
    out
}

/// Whether some character is an ASCII digit.
pub fn has_digit(s: &str) -> (r: bool)
    ensures
        r == any_digit(s@),
{
    let v = chars_of(s);
    let mut i: usize = 0;
    while i < v.len()
        invariant
            v@ == s@,
            i <= v@.len(),
            forall|k: int| 0 <= k < i ==> !is_digit(#[trigger] v@[k]),
        decreases v@.len() - i,
    {
        if char_is_digit(v[i]) {
            assert(is_digit(s@[i as int]));
            return true;
        }
        i += 1;
    }
    false
}

/// Whether every character is an ASCII digit.
pub fn only_digits(s: &str) -> (r: bool)
    ensures
        r == all_digits(s@),
{
    let v = chars_of(s);
    let mut i: usize = 0;
    while i < v.len()
        invariant
            v@ == s@,
            i <= v@.len(),
            forall|k: int| 0 <= k < i ==> is_digit(#[trigger] v@[k]),
        decreases v@.len() - i,
    {
        if !char_is_digit(v[i]) {
            assert(!is_digit(s@[i as int]));
            return false;
        }
        i += 1;
    }
    true
}

/// Whether some character is an ASCII letter.
pub fn has_alpha(s: &str) -> (r: bool)
    ensures
        r == any_alpha(s@),
{
    let v = chars_of(s);
    let mut i: usize = 0;
    while i < v.len()
        invariant
            v@ == s@,
            i <= v@.len(),
            forall|k: int| 0 <= k < i ==> !is_alpha(#[trigger] v@[k]),
        decreases v@.len() - i,
    {
        if char_is_alpha(v[i]) {
            assert(is_alpha(s@[i as int]));
            return true;
        }
        i += 1;
    }
    false
}

/// Writes a natural number in decimal notation.
pub fn write_decimal(n: u64) -> (r: String)
    ensures
        r@ == decimal(n as nat),
    decreases n,
{
    let d = (48 + (n % 10) as u8) as char;
    if n < 10 {
        text_of_char(d)
    } else {
        let mut out = write_decimal(n / 10);
        out.push(d);
        out
    }
}

/// Writes an integer in decimal notation.
pub fn write_decimal_int(n: i64) -> (r: String)
    ensures
        r@ == decimal_int(n as int),
{
    if n < 0 {
        let mut out = text_of_char('-');
        let magnitude: u64 = if n == i64::MIN {
            9223372036854775808
        } else {
            (-n) as u64
        };
        let digits = write_decimal(magnitude);
        out.append(digits.as_str());
        out
    } else {
        write_decimal(n as u64)
    }
}

/// Longer digit sequences denote numbers that are at least as large.
proof fn lemma_digits_value_grows(s: Seq<char>, n: int)
    requires
        0 <= n <= s.len(),
        all_digits(s),
    ensures
        digits_value(s.take(n)) <= digits_value(s),
    decreases s.len(),
{
    if n < s.len() {
        assert(s.drop_last().take(n) =~= s.take(n));
        assert forall|i: int| 0 <= i < s.drop_last().len() implies is_digit(
            #[trigger] s.drop_last()[i],
        ) by {
            assert(is_digit(s[i]));
        }
        lemma_digits_value_grows(s.drop_last(), n);
        assert(is_digit(s[s.len() - 1]));
    } else {
        assert(s.take(n) =~= s);
    }
}

/// Reads a natural number of at most `max`.
pub fn parse_unsigned(s: &str, max: u64) -> (r: Option<u64>)
    ensures
        match r {
            Some(n) => unsigned_up_to(s@, max as nat) == Some(n as nat),
            None => unsigned_up_to(s@, max as nat) is None,
        },
{
    let v = chars_of(s);
    let start: usize = if v.len() > 0 && v[0] == '+' {
        1
    } else {
        0
    };
    let ghost body = s@.skip(start as int);
    proof {
        if start == 1 {
            assert(s@.drop_first() =~= body);
        } else {
            assert(s@ =~= body);
        }
    }
    if start == v.len() {
        return None;
    }
    let mut value: u64 = 0;
    let mut i: usize = start;
    let mut too_large = false;
    assert(body.take(0) =~= Seq::<char>::empty());
    while i < v.len()
        invariant
            v@ == s@,
            start <= i <= v@.len(),
            body == s@.skip(start as int),
            body == (if s@.len() > 0 && s@[0] == '+' {
                s@.drop_first()
            } else {
                s@
            }),
            body.len() > 0,
            forall|k: int| 0 <= k < i - start ==> is_digit(#[trigger] body[k]),
            too_large ==> digits_value(body.take(i - start)) > max,
            !too_large ==> value == digits_value(body.take(i - start)) && value <= max,
        decreases v@.len() - i,
    {
        let c = v[i];
        assert(body[i - start] == c);
        if !char_is_digit(c) {
            assert(!all_digits(body));
            return None;
        }
        let d: u64 = (c as u32 - 48) as u64;
        proof {
            assert(body.take(i - start + 1).drop_last() =~= body.take(i - start));
            assert(body.take(i - start + 1).last() == c);
        }
        if !too_large {
            let wide: u128 = (value as u128) * 10 + (d as u128);
            if wide > max as u128 {
                too_large = true;
            } else {
                value = wide as u64;
            }
        }
        i += 1;
    }
    assert(body.take(i - start) =~= body);
    assert(all_digits(body));
    if too_large {
        None
    } else {
        Some(value)
    }
}

/// The texts without white space at their ends.
pub open spec fn all_trimmed(parts: Seq<Seq<char>>) -> Seq<Seq<char>> {
    Seq::new(parts.len(), |i: int| trimmed(parts[i]))
}

/// The texts without white space at their ends.
pub fn trim_all(parts: &Vec<String>) -> (r: Vec<String>)
    ensures
        r.deep_view() == all_trimmed(parts.deep_view()),
{
    let mut out: Vec<String> = Vec::new();
    let mut i: usize = 0;
    while i < parts.len()
        invariant
            i <= parts@.len(),
            out@.len() == i,
            forall|k: int| 0 <= k < i ==> (#[trigger] out@[k])@ == trimmed(parts@[k]@),
        decreases parts@.len() - i,
    {
        out.push(trim(parts[i].as_str()));
        i += 1;
    }
    assert(out.deep_view() =~= all_trimmed(parts.deep_view()));
    out
}

/// The texts in upper case.
pub open spec fn all_uppered(parts: Seq<Seq<char>>) -> Seq<Seq<char>> {
    Seq::new(parts.len(), |i: int| uppered(parts[i]))
}

/// The texts in upper case.
pub fn upper_all(parts: &Vec<String>) -> (r: Vec<String>)
    ensures
        r.deep_view() == all_uppered(parts.deep_view()),
{
    let mut out: Vec<String> = Vec::new();
    let mut i: usize = 0;
    while i < parts.len()
        invariant
            i <= parts@.len(),
            out@.len() == i,
            forall|k: int| 0 <= k < i ==> (#[trigger] out@[k])@ == uppered(parts@[k]@),
        decreases parts@.len() - i,
    {
        out.push(to_upper(parts[i].as_str()));
        i += 1;
    }
    assert(out.deep_view() =~= all_uppered(parts.deep_view()));
    out
}

/// Whether a list holds a text.
pub fn lists(parts: &Vec<String>, s: &str) -> (r: bool)
    ensures
        r == parts.deep_view().contains(s@),
{
    let mut i: usize = 0;
    while i < parts.len()
        invariant
            i <= parts@.len(),
            forall|k: int| 0 <= k < i ==> parts.deep_view()[k] != s@,
        decreases parts@.len() - i,
    {
        assert(parts.deep_view()[i as int] == parts@[i as int]@);
        if same(parts[i].as_str(), s) {
            return true;
        }
        i += 1;
    }
    false
}

/// The first of each text in a list.
pub open spec fn uniques(parts: Seq<Seq<char>>) -> Seq<Seq<char>>
    decreases parts.len(),
{
    if parts.len() == 0 {
        parts
    } else {
        let before = uniques(parts.drop_last());
        if before.contains(parts.last()) {
            before
        } else {
            before.push(parts.last())
        }
    }
}

/// The first of each text in a list.
pub fn keep_unique(parts: &Vec<String>) -> (r: Vec<String>)
    ensures
        r.deep_view() == uniques(parts.deep_view()),
{
    let ghost all = parts.deep_view();
    let mut out: Vec<String> = Vec::new();
    let mut i: usize = 0;
    assert(out.deep_view() =~= uniques(all.take(0)));
    while i < parts.len()
        invariant
            all == parts.deep_view(),
            i <= parts@.len(),
            out.deep_view() == uniques(all.take(i as int)),
        decreases parts@.len() - i,
    {
        assert(all.take(i + 1).drop_last() =~= all.take(i as int));
        assert(all.take(i + 1).last() == parts@[i as int]@);
        if !lists(&out, parts[i].as_str()) {
            let ghost before = out.deep_view();
            out.push(parts[i].clone());
            assert(out.deep_view() =~= before.push(parts@[i as int]@));
        }
        i += 1;
    }
    assert(all.take(i as int) =~= all);
    out
}

/// The decimal notation of a number consists of digits and denotes that number.
pub proof fn law_decimal_is_read_back(n: nat)
    ensures
        decimal(n).len() > 0,
        all_digits(decimal(n)),
        digits_value(decimal(n)) == n,
    decreases n,
{
    let s = decimal(n);
    if n < 10 {
        assert(s.drop_last() =~= Seq::empty());
        assert(digits_value(s.drop_last()) == 0);
        assert(s.last() as int == n + 48);
    } else {
        law_decimal_is_read_back(n / 10);
        assert(s.drop_last() =~= decimal(n / 10));
        assert(s.last() as int == n % 10 + 48);
        assert forall|i: int| 0 <= i < s.len() implies is_digit(#[trigger] s[i]) by {
            if i < s.len() - 1 {
                assert(s[i] == decimal(n / 10)[i]);
            }
        }
    }
}

/// No text stands twice in a list of first ones, and all texts are there.
pub proof fn law_uniques_are_distinct(parts: Seq<Seq<char>>)
    ensures
        forall|i: int, j: int|
            0 <= i < j < uniques(parts).len() ==> #[trigger] uniques(parts)[i]
                != #[trigger] uniques(parts)[j],
        forall|x: Seq<char>| #[trigger] uniques(parts).contains(x) <==> parts.contains(x),
    decreases parts.len(),
{
    if parts.len() > 0 {
        let shorter = parts.drop_last();
        let before = uniques(shorter);
        let after = uniques(parts);
        law_uniques_are_distinct(shorter);
        assert forall|x: Seq<char>| #[trigger] after.contains(x) <==> parts.contains(x) by {
            if parts.contains(x) {
                let k = choose|k: int| 0 <= k < parts.len() && parts[k] == x;
                if k < shorter.len() {
                    assert(shorter[k] == x);
                    assert(before.contains(x));
                    let m = choose|m: int| 0 <= m < before.len() && before[m] == x;
                    assert(after[m] == x);
                } else if !before.contains(x) {
                    assert(after[before.len() as int] == x);
                }
            }
            if after.contains(x) {
                let m = choose|m: int| 0 <= m < after.len() && after[m] == x;
                if m < before.len() {
                    assert(before[m] == x);
                    assert(before.contains(x));
                    assert(shorter.contains(x));
                    let k = choose|k: int| 0 <= k < shorter.len() && shorter[k] == x;
                    assert(parts[k] == x);
                } else {
                    assert(parts[parts.len() - 1] == x);
                }
            }
        }
        assert forall|i: int, j: int| 0 <= i < j < after.len() implies #[trigger] after[i]
            != #[trigger] after[j] by {
            if j == before.len() {
                assert(before[i] == after[i]);
                assert(before.contains(before[i]));
            }
        }
    }
}

proof fn lemma_trimmed_start(s: Seq<char>)
    ensures
        trimmed_start(s).len() > 0 ==> !is_white(trimmed_start(s).first()),
    decreases s.len(),
{
    if s.len() > 0 && is_white(s.first()) {
        lemma_trimmed_start(s.drop_first());
    }
}

proof fn lemma_trimmed_end(s: Seq<char>)
    ensures
        trimmed_end(s).len() > 0 ==> !is_white(trimmed_end(s).last()) && s.len() > 0
            && trimmed_end(s).first() == s.first(),
    decreases s.len(),
{
    if s.len() > 0 && is_white(s.last()) {
        lemma_trimmed_end(s.drop_last());
    }
}

/// Trimming again changes nothing.
pub proof fn law_trimming_again_changes_nothing(s: Seq<char>)
    ensures
        trimmed(trimmed(s)) == trimmed(s),
{
    let a = trimmed_start(s);
    let t = trimmed(s);
    lemma_trimmed_start(s);
    lemma_trimmed_end(a);
    if t.len() > 0 {
        assert(trimmed_start(t) == t);
        assert(trimmed_end(t) == t);
    }
}

/// White space before a text is trimmed away.
pub proof fn lemma_trimmed_after_white(s: Seq<char>, w: char)
    requires
        is_white(w),
    ensures
        trimmed(seq![w] + s) == trimmed(s),
{
    assert((seq![w] + s).drop_first() =~= s);
}

proof fn lemma_trimmed_start_of_pushed(s: Seq<char>, w: char)
    requires
        is_white(w),
    ensures
        trimmed_start(s.push(w)) == if trimmed_start(s).len() == 0 {
            Seq::empty()
        } else {
            trimmed_start(s).push(w)
        },
    decreases s.len(),
{
    if s.len() == 0 {
        assert(s.push(w).drop_first() =~= s);
        assert(trimmed_start(s) =~= Seq::empty());
    } else {
        assert(s.push(w).first() == s.first());
        if is_white(s.first()) {
            assert(s.push(w).drop_first() =~= s.drop_first().push(w));
            lemma_trimmed_start_of_pushed(s.drop_first(), w);
        }
    }
}

/// White space behind a text is trimmed away.
pub proof fn lemma_trimmed_before_white(s: Seq<char>, w: char)
    requires
        is_white(w),
    ensures
        trimmed(s.push(w)) == trimmed(s),
{
    lemma_trimmed_start_of_pushed(s, w);
    let t = trimmed_start(s);
    if t.len() > 0 {
        assert(t.push(w).drop_last() =~= t);
    } else {
        assert(t =~= Seq::empty());
    }
}

/// The characters of a set are taken out of each half of a text.
pub proof fn lemma_without_joined(a: Seq<char>, b: Seq<char>, set: CharSet)
    ensures
        without(a + b, set) == without(a, set) + without(b, set),
    decreases b.len(),
{
    if b.len() == 0 {
        assert(a + b =~= a);
        assert(without(a, set) + without(b, set) =~= without(a, set));
    } else {
        assert((a + b).drop_last() =~= a + b.drop_last());
        lemma_without_joined(a, b.drop_last(), set);
        if !set.holds(b.last()) {
            assert((without(a, set) + without(b.drop_last(), set)).push(b.last()) =~= without(a, set)
                + without(b.drop_last(), set).push(b.last()));
        }
    }
}

/// A character in front goes to the first piece.
pub proof fn lemma_pieces_behind(s: Seq<char>, c: char, set: CharSet)
    requires
        !set.holds(c),
    ensures
        pieces(s, set).len() > 0,
        pieces(seq![c] + s, set) == pieces(s, set).update(0, seq![c] + pieces(s, set)[0]),
    decreases s.len(),
{
    let t = seq![c] + s;
    assert(t.drop_last() =~= if s.len() == 0 {
        Seq::empty()
    } else {
        seq![c] + s.drop_last()
    });
    if s.len() == 0 {
        let before = pieces(t.drop_last(), set);
        assert(before =~= seq![Seq::<char>::empty()]);
        assert(before.last().push(c) =~= seq![c] + Seq::<char>::empty());
        assert(pieces(t, set) =~= pieces(s, set).update(0, seq![c] + pieces(s, set)[0]));
    } else {
        lemma_pieces_behind(s.drop_last(), c, set);
        let before = pieces(s.drop_last(), set);
        let with = before.update(0, seq![c] + before[0]);
        let last = s.last();
        assert(t.last() == last);
        if set.holds(last) {
            assert(with.push(Seq::empty()) =~= before.push(Seq::empty()).update(
                0,
                seq![c] + before[0],
            ));
        } else {
            assert((seq![c] + before[0]).push(last) =~= seq![c] + before[0].push(last));
            assert(with.update(with.len() - 1, with.last().push(last)) =~= pieces(s, set).update(
                0,
                seq![c] + pieces(s, set)[0],
            ));
        }
    }
}

/// Every text without the characters of a set.
pub open spec fn all_without(parts: Seq<Seq<char>>, set: CharSet) -> Seq<Seq<char>> {
    parts.map_values(|s: Seq<char>| without(s, set))
}

/// Characters that do not part a text are taken out of its pieces.
pub proof fn lemma_pieces_without(s: Seq<char>, by: CharSet, set: CharSet)
    requires
        forall|c: char| by.holds(c) ==> !set.holds(c),
    ensures
        pieces(s, by).len() > 0,
        pieces(without(s, set), by) == all_without(pieces(s, by), set),
    decreases s.len(),
{
    if s.len() > 0 {
        lemma_pieces_without(s.drop_last(), by, set);
        let c = s.last();
        let before = pieces(s.drop_last(), by);
        let rest = without(s.drop_last(), set);
        if by.holds(c) {
            assert(rest.push(c).drop_last() =~= rest);
        } else {
            let last = before.last().push(c);
            assert(last.drop_last() =~= before.last());
            if !set.holds(c) {
                assert(rest.push(c).drop_last() =~= rest);
            }
        }
    }
    assert(pieces(without(s, set), by) =~= all_without(pieces(s, by), set));
}

/// Taking characters out again changes nothing.
pub proof fn lemma_without_again(s: Seq<char>, set: CharSet)
    ensures
        without(without(s, set), set) == without(s, set),
    decreases s.len(),
{
    if s.len() > 0 {
        lemma_without_again(s.drop_last(), set);
        let rest = without(s.drop_last(), set);
        if !set.holds(s.last()) {
            assert(rest.push(s.last()).drop_last() =~= rest);
        }
    }
}

/// Changing the case of a text changes its ASCII letters and nothing else.
pub proof fn law_case_changes_letters_only(s: Seq<char>, i: int)
    requires
        0 <= i < s.len(),
    ensures
        lowered(s).len() == s.len(),
        uppered(s).len() == s.len(),
        'A' <= s[i] <= 'Z' ==> lowered(s)[i] as int == s[i] as int + 32,
        !('A' <= s[i] <= 'Z') ==> lowered(s)[i] == s[i],
        'a' <= s[i] <= 'z' ==> uppered(s)[i] as int == s[i] as int - 32,
        !('a' <= s[i] <= 'z') ==> uppered(s)[i] == s[i],
{
}

/// Which characters count as white space, digits and letters.
pub proof fn law_kinds_of_characters(c: char)
    ensures
        c == ' ' || c == '\t' || c == '\n' || c == '\r' || c == '\u{a0}' ==> is_white(c),
        '!' <= c <= '~' ==> !is_white(c),
        is_digit(c) <==> c == '0' || c == '1' || c == '2' || c == '3' || c == '4' || c == '5' || c
            == '6' || c == '7' || c == '8' || c == '9',
        is_alpha(c) <==> 97 <= c as int <= 122 || 65 <= c as int <= 90,
        is_alnum(c) <==> is_alpha(c) || is_digit(c),
{
}

proof fn lemma_trimmed_start_span(s: Seq<char>) -> (a: int)
    ensures
        0 <= a <= s.len(),
        trimmed_start(s) == s.subrange(a, s.len() as int),
        forall|i: int| 0 <= i < a ==> is_white(#[trigger] s[i]),
        a < s.len() ==> !is_white(s[a]),
    decreases s.len(),
{
    if s.len() > 0 && is_white(s.first()) {
        let t = s.drop_first();
        let b = lemma_trimmed_start_span(t);
        assert(trimmed_start(s) =~= s.subrange(b + 1, s.len() as int));
        assert forall|i: int| 0 <= i < b + 1 implies is_white(#[trigger] s[i]) by {
            if i > 0 {
                assert(t[i - 1] == s[i]);
            }
        }
        if b + 1 < s.len() {
            assert(t[b] == s[b + 1]);
        }
        b + 1
    } else {
        assert(s.subrange(0, s.len() as int) =~= s);
        0
    }
}

proof fn lemma_trimmed_end_span(s: Seq<char>) -> (b: int)
    ensures
        0 <= b <= s.len(),
        trimmed_end(s) == s.subrange(0, b),
        forall|i: int| b <= i < s.len() ==> is_white(#[trigger] s[i]),
        b > 0 ==> !is_white(s[b - 1]),
    decreases s.len(),
{
    if s.len() > 0 && is_white(s.last()) {
        let t = s.drop_last();
        let b = lemma_trimmed_end_span(t);
        assert(trimmed_end(s) =~= s.subrange(0, b));
        assert forall|i: int| b <= i < s.len() implies is_white(#[trigger] s[i]) by {
            if i < t.len() {
                assert(t[i] == s[i]);
            }
        }
        if b > 0 {
            assert(t[b - 1] == s[b - 1]);
        }
        b
    } else {
        assert(s.subrange(0, s.len() as int) =~= s);
        s.len() as int
    }
}

/// Trimming takes away the white space at both ends of a text and leaves all that stands
/// between.
pub proof fn law_trimming_takes_the_ends(s: Seq<char>)
    ensures
        exists|a: int, b: int|
            {
                &&& 0 <= a <= b <= s.len()
                &&& trimmed(s) == #[trigger] s.subrange(a, b)
                &&& forall|i: int| 0 <= i < a || b <= i < s.len() ==> is_white(#[trigger] s[i])
                &&& a < b ==> !is_white(s[a]) && !is_white(s[b - 1])
            },
{
    let a = lemma_trimmed_start_span(s);
    let t = trimmed_start(s);
    let n = lemma_trimmed_end_span(t);
    let b = a + n;
    assert(trimmed(s) =~= s.subrange(a, b));
    assert forall|i: int| 0 <= i < a || b <= i < s.len() implies is_white(#[trigger] s[i]) by {
        if b <= i {
            assert(t[i - a] == s[i]);
        }
    }
    if a < b {
        assert(t[n - 1] == s[b - 1]);
    }
}

/// A text that is split at a character is put together again with that character between
/// its pieces, and no piece holds it.
pub proof fn law_pieces_make_up_the_text(s: Seq<char>, c: char)
    ensures
        pieces(s, CharSet::Only(c)).len() > 0,
        joined(pieces(s, CharSet::Only(c)), seq![c]) == s,
        forall|i: int|
            0 <= i < pieces(s, CharSet::Only(c)).len() ==> !(#[trigger] pieces(
                s,
                CharSet::Only(c),
            )[i]).contains(c),
    decreases s.len(),
{
    let all = pieces(s, CharSet::Only(c));
    if s.len() == 0 {
        assert(all =~= seq![Seq::<char>::empty()]);
        assert(joined(all, seq![c]) =~= s);
    } else {
        let t = s.drop_last();
        let before = pieces(t, CharSet::Only(c));
        law_pieces_make_up_the_text(t, c);
        if s.last() == c {
            assert(all.drop_last() =~= before);
            assert(joined(all, seq![c]) =~= s);
            assert forall|i: int| 0 <= i < all.len() implies !(#[trigger] all[i]).contains(c) by {
                if i < before.len() {
                    assert(all[i] == before[i]);
                }
            }
        } else {
            assert(all.drop_last() =~= before.drop_last());
            let x = before.last();
            if before.len() > 1 {
                assert(joined(all, seq![c]) =~= joined(before, seq![c]).push(s.last()));
            }
            assert(joined(all, seq![c]) =~= s);
            assert forall|i: int| 0 <= i < all.len() implies !(#[trigger] all[i]).contains(c) by {
                if i < before.len() - 1 {
                    assert(all[i] == before[i]);
                } else {
                    let y = all[i];
                    assert(y == x.push(s.last()));
                    if y.contains(c) {
                        let k = choose|k: int| 0 <= k < y.len() && y[k] == c;
                        assert(x[k] == c);
                        assert(before[before.len() - 1].contains(c));
                    }
                }
            }
        }
    }
}

/// A text is cut at the first occurrence of a character, and is not cut exactly if it does
/// not hold the character.
pub proof fn law_cut_is_at_the_first(s: Seq<char>, c: char)
    ensures
        match cut(s, c) {
            Some((before, after)) => s == before + seq![c] + after && !before.contains(c),
            None => !s.contains(c),
        },
    decreases s.len(),
{
    lemma_first_index_is_first(s, c);
    match first_index(s, c) {
        Some(i) => {
            assert(s =~= s.take(i) + seq![c] + s.skip(i + 1));
        },
        None => {},
    }
}

proof fn lemma_first_index_is_first(s: Seq<char>, c: char)
    ensures
        match first_index(s, c) {
            Some(i) => 0 <= i < s.len() && s[i] == c && forall|j: int|
                0 <= j < i ==> #[trigger] s[j] != c,
            None => forall|j: int| 0 <= j < s.len() ==> #[trigger] s[j] != c,
        },
    decreases s.len(),
{
    if s.len() > 0 {
        let t = s.drop_last();
        lemma_first_index_is_first(t, c);
        match first_index(t, c) {
            Some(i) => {
                assert(t[i] == s[i]);
                assert forall|j: int| 0 <= j < i implies #[trigger] s[j] != c by {
                    assert(t[j] == s[j]);
                }
            },
            None => {
                assert forall|j: int| 0 <= j < s.len() - 1 implies #[trigger] s[j] != c by {
                    assert(t[j] == s[j]);
                }
            },
        }
    }
}

/// Taking out the characters of a set leaves the others, in their order.
pub proof fn law_others_are_left(s: Seq<char>, set: CharSet)
    ensures
        without(s, set) == s.filter(|c: char| !set.holds(c)),
    decreases s.len(),
{
    reveal(Seq::filter);
    if s.len() > 0 {
        law_others_are_left(s.drop_last(), set);
    }
}

/// The words of a text are not empty, hold no white space, and hold all the rest of it, in
/// order.
pub proof fn law_words_are_the_text_without_white_space(s: Seq<char>)
    ensures
        forall|i: int| 0 <= i < words(s).len() ==> (#[trigger] words(s)[i]).len() > 0,
        words(s).fold_left(Seq::<char>::empty(), |a: Seq<char>, w: Seq<char>| a + w) == without(
            s,
            CharSet::White,
        ),
{
    let f = |a: Seq<char>, w: Seq<char>| a + w;
    let all = pieces(s, CharSet::White);
    lemma_non_empty(all);
    lemma_non_empty_joined(all);
    lemma_pieces_joined(s, CharSet::White);
}

proof fn lemma_non_empty(parts: Seq<Seq<char>>)
    ensures
        forall|i: int| 0 <= i < non_empty(parts).len() ==> (#[trigger] non_empty(parts)[i]).len() > 0,
    decreases parts.len(),
{
    if parts.len() > 0 {
        let before = non_empty(parts.drop_last());
        lemma_non_empty(parts.drop_last());
        assert forall|i: int| 0 <= i < non_empty(parts).len() implies (
        #[trigger] non_empty(parts)[i]).len() > 0 by {
            if i < before.len() {
                assert(non_empty(parts)[i] == before[i]);
            }
        }
    }
}

proof fn lemma_non_empty_joined(parts: Seq<Seq<char>>)
    ensures
        non_empty(parts).fold_left(Seq::<char>::empty(), |a: Seq<char>, w: Seq<char>| a + w)
            == parts.fold_left(Seq::<char>::empty(), |a: Seq<char>, w: Seq<char>| a + w),
    decreases parts.len(),
{
    let f = |a: Seq<char>, w: Seq<char>| a + w;
    let e = Seq::<char>::empty();
    if parts.len() > 0 {
        let t = parts.drop_last();
        lemma_non_empty_joined(t);
        let out = non_empty(parts);
        if parts.last().len() == 0 {
            assert(parts.last() =~= e);
            assert(t.fold_left(e, f) + e =~= t.fold_left(e, f));
        } else {
            assert(out.drop_last() =~= non_empty(t));
        }
    }
}

proof fn lemma_pieces_joined(s: Seq<char>, set: CharSet)
    ensures
        pieces(s, set).len() > 0,
        pieces(s, set).fold_left(Seq::<char>::empty(), |a: Seq<char>, w: Seq<char>| a + w)
            == without(s, set),
    decreases s.len(),
{
    let f = |a: Seq<char>, w: Seq<char>| a + w;
    let e = Seq::<char>::empty();
    let all = pieces(s, set);
    if s.len() == 0 {
        assert(all =~= seq![e]);
        assert(all.drop_last() =~= Seq::empty());
        assert(Seq::<Seq<char>>::empty().fold_left(e, f) == e);
        assert(all.fold_left(e, f) =~= e);
        assert(without(s, set) =~= e);
    } else {
        let t = s.drop_last();
        let before = pieces(t, set);
        lemma_pieces_joined(t, set);
        if set.holds(s.last()) {
            assert(all.drop_last() =~= before);
            assert(all.fold_left(e, f) =~= before.fold_left(e, f));
        } else {
            assert(all.drop_last() =~= before.drop_last());
            let head = before.drop_last().fold_left(e, f);
            assert(before.fold_left(e, f) == head + before.last());
            assert(all.fold_left(e, f) == head + before.last().push(s.last()));
            assert(head + before.last().push(s.last()) =~= (head + before.last()).push(s.last()));
        }
    }
}

/// The first of each text in a list are all its texts.
pub proof fn law_uniques_are_all(parts: Seq<Seq<char>>, s: Seq<char>)
    ensures
        uniques(parts).contains(s) <==> parts.contains(s),
    decreases parts.len(),
{
    if parts.len() > 0 {
        let before = parts.drop_last();
        law_uniques_are_all(before, s);
        let (a, b) = (uniques(before), uniques(parts));
        if parts.contains(s) {
            let k = choose|k: int| 0 <= k < parts.len() && parts[k] == s;
            if k < before.len() {
                assert(before[k] == s);
                let m = choose|m: int| 0 <= m < a.len() && a[m] == s;
                assert(b[m] == s);
            } else if !a.contains(parts.last()) {
                assert(b[b.len() - 1] == s);
            }
        }
        if b.contains(s) {
            let m = choose|m: int| 0 <= m < b.len() && b[m] == s;
            if m < a.len() {
                assert(a[m] == s);
                let k = choose|k: int| 0 <= k < before.len() && before[k] == s;
                assert(parts[k] == s);
            } else {
                assert(parts[parts.len() - 1] == s);
            }
        }
    }
}

/// The last digit of a number in decimal notation is what is left over ten, and the digits
/// before it are those of the number without it. A number below zero has a sign.
pub proof fn law_decimal_digits(n: nat)
    ensures
        decimal(n).last() as int == 48 + n % 10,
        n < 10 ==> decimal(n).len() == 1,
        n >= 10 ==> decimal(n).drop_last() == decimal(n / 10),
        decimal_int(n as int) == decimal(n),
        n > 0 ==> decimal_int(-(n as int)) == seq!['-'] + decimal(n),
{
    if n >= 10 {
        assert(decimal(n).drop_last() =~= decimal(n / 10));
    }
}

/// A number is read digit by digit, with or without a plus sign, and nothing else is one.
pub proof fn law_numbers_are_digits(s: Seq<char>, d: char)
    requires
        '0' <= d <= '9',
    ensures
        unsigned_value(Seq::empty()) is None,
        unsigned_value(seq![d]) == Some((d as int - 48) as nat),
        unsigned_value(s) is Some ==> unsigned_value(s.push(d)) == Some(
            (10 * unsigned_value(s)->0 + (d as int - 48)) as nat,
        ),
        s.len() > 0 && s[0] != '+' && unsigned_value(s) is Some ==> unsigned_value(seq!['+'] + s)
            == unsigned_value(s),
        unsigned_value(s) is Some ==> forall|i: int|
            0 < i < s.len() ==> '0' <= #[trigger] s[i] <= '9',
        unsigned_value(s) is Some ==> '0' <= s.last() <= '9',
{
    let one = seq![d];
    assert(one.drop_last() =~= Seq::empty());
    assert(digits_value(Seq::empty()) == 0);
    assert(all_digits(one));
    assert(digits_value(one) == (d as int - 48) as nat);
    if unsigned_value(s) is Some {
        let plus = s.len() > 0 && s[0] == '+';
        let body = if plus {
            s.drop_first()
        } else {
            s
        };
        let longer = s.push(d);
        let more = body.push(d);
        assert(longer[0] == s[0]);
        assert(more =~= if plus {
            longer.drop_first()
        } else {
            longer
        });
        assert(more.drop_last() =~= body);
        assert(all_digits(more)) by {
            assert forall|i: int| 0 <= i < more.len() implies is_digit(#[trigger] more[i]) by {
                if i < body.len() {
                    assert(is_digit(body[i]));
                }
            }
        }
        assert(digits_value(more) == digits_value(body) * 10 + (d as int - 48));
        assert forall|i: int| 0 < i < s.len() implies '0' <= #[trigger] s[i] <= '9' by {
            if plus {
                assert(is_digit(body[i - 1]));
            } else {
                assert(is_digit(body[i]));
            }
        }
        assert(is_digit(body[body.len() - 1]));
        if !plus {
            assert((seq!['+'] + s).drop_first() =~= s);
        }
    }
}

/// A text begins and ends with what it was put together from, and holds what is in its
/// middle; with a text that is longer it does neither.
pub proof fn law_texts_hold_their_parts(a: Seq<char>, b: Seq<char>, c: Seq<char>, s: Seq<char>)
    ensures
        starts(a + b, a),
        ends(a + b, b),
        contains(a + b + c, b),
        s.len() < a.len() ==> !starts(s, a) && !ends(s, a) && !contains(s, a),
        starts(s, a) ==> s == a + s.skip(a.len() as int),
        ends(s, a) ==> s == s.take(s.len() - a.len()) + a,
        contains(s, a) ==> exists|i: int|
            #![trigger s.take(i)]
            0 <= i <= s.len() - a.len() && s == s.take(i) + a + s.skip(i + a.len()),
{
    let n = a.len() as int;
    assert((a + b).subrange(0, n) =~= a);
    assert((a + b).subrange(n, n + b.len()) =~= b);
    assert((a + b + c).subrange(n, n + b.len()) =~= b);
    assert(occurs_at(a + b + c, b, n));
    if starts(s, a) {
        assert(s.subrange(0, n) =~= a);
        assert(s =~= s.subrange(0, n) + s.skip(n));
    }
    if ends(s, a) {
        let k = s.len() - a.len();
        assert(s =~= s.take(k) + s.subrange(k, k + a.len()));
    }
    if contains(s, a) {
        let i = choose|i: int| occurs_at(s, a, i);
        assert(s =~= s.take(i) + s.subrange(i, i + a.len()) + s.skip(i + a.len()));
    }
}

} // verus!
