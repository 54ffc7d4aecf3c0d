//! Sorting.

use vstd::prelude::*;

use crate::text;

verus! {

/// A value that can be put in order with others of its type.
pub trait Ranked: DeepView + Sized {
    /// `a` may stand before `b`.
    spec fn precedes(a: Self::V, b: Self::V) -> bool;

    /// Any two values can be put in order.
    proof fn comparable(a: Self::V, b: Self::V)
        ensures
            Self::precedes(a, b) || Self::precedes(b, a),
    ;

    /// Order carries over.
    proof fn carries_over(a: Self::V, b: Self::V, c: Self::V)
        requires
            Self::precedes(a, b),
            Self::precedes(b, c),
        ensures
            Self::precedes(a, c),
    ;

    /// Whether this value may stand before another.
    fn may_precede(&self, other: &Self) -> (r: bool)
        ensures
            r == Self::precedes(self.deep_view(), other.deep_view()),
    ;
}

/// A sequence with a value before the first one that it may precede.
pub open spec fn placed<T: Ranked>(x: T::V, s: Seq<T::V>) -> Seq<T::V>
    decreases s.len(),
{
    if s.len() == 0 || T::precedes(x, s[0]) {
        seq![x] + s
    } else {
        seq![s[0]] + placed::<T>(x, s.drop_first())
    }
}

/// A sequence in order. Values that may precede each other keep their order.
pub open spec fn sorted<T: Ranked>(s: Seq<T::V>) -> Seq<T::V>
    decreases s.len(),
{
    if s.len() == 0 {
        s
    } else {
        placed::<T>(s[0], sorted::<T>(s.drop_first()))
    }
}

proof fn lemma_placed_at<T: Ranked>(x: T::V, s: Seq<T::V>, i: int)
    requires
        0 <= i <= s.len(),
        forall|k: int| 0 <= k < i ==> !T::precedes(x, #[trigger] s[k]),
        i < s.len() ==> T::precedes(x, s[i]),
    ensures
        placed::<T>(x, s) == s.insert(i, x),
    decreases s.len(),
{
    if i == 0 {
        assert(seq![x] + s =~= s.insert(0, x));
    } else {
        let t = s.drop_first();
        assert forall|k: int| 0 <= k < i - 1 implies !T::precedes(x, #[trigger] t[k]) by {
            assert(t[k] == s[k + 1]);
        }
        lemma_placed_at::<T>(x, t, i - 1);
        assert(!T::precedes(x, s[0]));
        assert(seq![s[0]] + t.insert(i - 1, x) =~= s.insert(i, x));
    }
}

/// The index of the first value that `x` may precede, or the length.
fn place_of<T: Ranked>(x: &T, v: &Vec<T>) -> (i: usize)
    ensures
        i <= v@.len(),
        forall|k: int| 0 <= k < i ==> !T::precedes(x.deep_view(), #[trigger] v.deep_view()[k]),
        i < v@.len() ==> T::precedes(x.deep_view(), v.deep_view()[i as int]),
{
    let mut i: usize = 0;
    while i < v.len()
        invariant
            i <= v@.len(),
            forall|k: int| 0 <= k < i ==> !T::precedes(x.deep_view(), #[trigger] v.deep_view()[k]),
        decreases v@.len() - i,
    {
        assert(v.deep_view()[i as int] == v@[i as int].deep_view());
        if x.may_precede(&v[i]) {
            return i;
        }
        i += 1;
    }
    i
}

/// Puts values in order. Values that may precede each other keep their order.
pub fn sort<T: Ranked>(v: Vec<T>) -> (r: Vec<T>)
    ensures
        r.deep_view() == sorted::<T>(v.deep_view()),
{
    let ghost all = v.deep_view();
    let mut rest = v;
    let mut out: Vec<T> = Vec::new();
    assert(rest.deep_view() =~= all.take(rest@.len() as int));
    assert(all.skip(rest@.len() as int) =~= Seq::empty());
    assert(out.deep_view() =~= Seq::empty());
    while rest.len() > 0
        invariant
            rest@.len() <= all.len(),
            rest.deep_view() == all.take(rest@.len() as int),
            out.deep_view() == sorted::<T>(all.skip(rest@.len() as int)),
        decreases rest@.len(),
    {
        let ghost n = rest@.len() - 1;
        let ghost before = out.deep_view();
        assert(rest.deep_view()[n] == all[n]);
        match rest.pop() {
            Some(x) => {
                let ghost view = x.deep_view();
                assert(view == all[n]);
                assert(rest.deep_view() =~= all.take(n));
                let i: usize = place_of(&x, &out);
                proof {
                    lemma_placed_at::<T>(view, before, i as int);
                    assert(all.skip(n)[0] == view);
                    assert(all.skip(n).drop_first() =~= all.skip(n + 1));
                }
                out.insert(i, x);
                assert(out.deep_view() =~= before.insert(i as int, view));
            },
            None => {},
        }
    }
    assert(all.skip(0) =~= all);
    out
}

/// What was sorted is in order.
pub proof fn law_sorted_is_in_order<T: Ranked>(s: Seq<T::V>, i: int, j: int)
    requires
        0 <= i < j < sorted::<T>(s).len(),
    ensures
        T::precedes(sorted::<T>(s)[i], sorted::<T>(s)[j]),
    decreases s.len(),
{
    let t = s.drop_first();
    let u = sorted::<T>(t);
    assert forall|a: int, b: int| 0 <= a < b < u.len() implies T::precedes(
        #[trigger] u[a],
        #[trigger] u[b],
    ) by {
        law_sorted_is_in_order::<T>(t, a, b);
    }
    lemma_placed_in_order::<T>(s[0], u, i, j);
}

proof fn lemma_placed_in_order<T: Ranked>(x: T::V, s: Seq<T::V>, i: int, j: int)
    requires
        forall|a: int, b: int|
            0 <= a < b < s.len() ==> T::precedes(#[trigger] s[a], #[trigger] s[b]),
        0 <= i < j < placed::<T>(x, s).len(),
    ensures
        T::precedes(placed::<T>(x, s)[i], placed::<T>(x, s)[j]),
    decreases s.len(),
{
    if s.len() == 0 {
    } else if T::precedes(x, s[0]) {
        if i == 0 && j > 1 {
            T::carries_over(x, s[0], s[j - 1]);
        }
    } else {
        let t = s.drop_first();
        T::comparable(x, s[0]);
        assert forall|a: int, b: int| 0 <= a < b < t.len() implies T::precedes(
            #[trigger] t[a],
            #[trigger] t[b],
        ) by {
            assert(T::precedes(s[a + 1], s[b + 1]));
        }
        if i > 0 {
            lemma_placed_in_order::<T>(x, t, i - 1, j - 1);
        } else {
            lemma_placed_from::<T>(x, t, j - 1);
            let y = placed::<T>(x, t)[j - 1];
            assert(placed::<T>(x, s)[j] == y);
            if y != x {
                let k = choose|k: int| 0 <= k < t.len() && t[k] == y;
                assert(T::precedes(s[0], s[k + 1]));
            }
        }
    }
}

proof fn lemma_placed_from<T: Ranked>(x: T::V, s: Seq<T::V>, i: int)
    requires
        0 <= i < placed::<T>(x, s).len(),
    ensures
        placed::<T>(x, s)[i] == x || exists|k: int|
            0 <= k < s.len() && s[k] == placed::<T>(x, s)[i],
    decreases s.len(),
{
    if s.len() == 0 {
    } else if T::precedes(x, s[0]) {
        if i > 0 {
            assert(s[i - 1] == placed::<T>(x, s)[i]);
        }
    } else if i == 0 {
        assert(s[0] == placed::<T>(x, s)[0]);
    } else {
        let t = s.drop_first();
        lemma_placed_from::<T>(x, t, i - 1);
        assert(placed::<T>(x, s)[i] == placed::<T>(x, t)[i - 1]);
        if placed::<T>(x, s)[i] != x {
            let k = choose|k: int| 0 <= k < t.len() && t[k] == placed::<T>(x, t)[i - 1];
            assert(s[k + 1] == placed::<T>(x, s)[i]);
        }
    }
}

/// Sorting neither loses nor adds anything.
pub proof fn law_sorted_keeps_items<T: Ranked>(s: Seq<T::V>)
    ensures
        sorted::<T>(s).to_multiset() == s.to_multiset(),
        sorted::<T>(s).len() == s.len(),
    decreases s.len(),
{
    broadcast use vstd::seq_lib::group_to_multiset_ensures;

    if s.len() > 0 {
        let t = s.drop_first();
        law_sorted_keeps_items::<T>(t);
        lemma_placed_items::<T>(s[0], sorted::<T>(t));
        assert(s =~= seq![s[0]] + t);
        vstd::seq_lib::lemma_multiset_commutative(seq![s[0]], t);
        assert(seq![s[0]] =~= Seq::<T::V>::empty().push(s[0]));
        assert(s.to_multiset() =~= t.to_multiset().insert(s[0]));
    }
}

proof fn lemma_placed_items<T: Ranked>(x: T::V, s: Seq<T::V>)
    ensures
        placed::<T>(x, s).to_multiset() == s.to_multiset().insert(x),
        placed::<T>(x, s).len() == s.len() + 1,
    decreases s.len(),
{
    broadcast use vstd::seq_lib::group_to_multiset_ensures;

    assert(seq![x] =~= Seq::<T::V>::empty().push(x));
    if s.len() == 0 || T::precedes(x, s[0]) {
        vstd::seq_lib::lemma_multiset_commutative(seq![x], s);
        assert(placed::<T>(x, s).to_multiset() =~= s.to_multiset().insert(x));
    } else {
        let t = s.drop_first();
        lemma_placed_items::<T>(x, t);
        assert(seq![s[0]] =~= Seq::<T::V>::empty().push(s[0]));
        vstd::seq_lib::lemma_multiset_commutative(seq![s[0]], placed::<T>(x, t));
        vstd::seq_lib::lemma_multiset_commutative(seq![s[0]], t);
        assert(s =~= seq![s[0]] + t);
        assert(placed::<T>(x, s).to_multiset() =~= s.to_multiset().insert(x));
    }
}

/// Sorting what is in order changes nothing.
pub proof fn law_sorting_again_changes_nothing<T: Ranked>(s: Seq<T::V>)
    requires
        forall|i: int, j: int|
            0 <= i < j < s.len() ==> T::precedes(#[trigger] s[i], #[trigger] s[j]),
    ensures
        sorted::<T>(s) == s,
    decreases s.len(),
{
    if s.len() > 0 {
        let t = s.drop_first();
        assert forall|i: int, j: int| 0 <= i < j < t.len() implies T::precedes(
            #[trigger] t[i],
            #[trigger] t[j],
        ) by {
            assert(T::precedes(s[i + 1], s[j + 1]));
        }
        law_sorting_again_changes_nothing::<T>(t);
        if t.len() > 0 {
            assert(T::precedes(s[0], s[1]));
        }
        assert(seq![s[0]] + t =~= s);
    }
}

/// The order of texts by their characters.
pub open spec fn text_precedes(a: Seq<char>, b: Seq<char>) -> bool
    decreases a.len(),
{
    if a.len() == 0 {
        true
    } else if b.len() == 0 {
        false
    } else if a[0] == b[0] {
        text_precedes(a.drop_first(), b.drop_first())
    } else {
        (a[0] as int) < (b[0] as int)
    }
}

proof fn lemma_text_comparable(a: Seq<char>, b: Seq<char>)
    ensures
        text_precedes(a, b) || text_precedes(b, a),
    decreases a.len(),
{
    if a.len() > 0 && b.len() > 0 && a[0] == b[0] {
        lemma_text_comparable(a.drop_first(), b.drop_first());
    }
}

proof fn lemma_text_carries_over(a: Seq<char>, b: Seq<char>, c: Seq<char>)
    requires
        text_precedes(a, b),
        text_precedes(b, c),
    ensures
        text_precedes(a, c),
    decreases a.len(),
{
    if a.len() > 0 && b.len() > 0 && c.len() > 0 && a[0] == b[0] && b[0] == c[0] {
        lemma_text_carries_over(a.drop_first(), b.drop_first(), c.drop_first());
    }
}

/// Of two different texts only one precedes the other.
pub proof fn law_text_order_is_strict(a: Seq<char>, b: Seq<char>)
    requires
        text_precedes(a, b),
        text_precedes(b, a),
    ensures
        a == b,
    decreases a.len(),
{
    if a.len() > 0 && b.len() > 0 {
        let (c, d) = (a.drop_first(), b.drop_first());
        assert(a[0] == b[0]);
        law_text_order_is_strict(c, d);
        assert forall|i: int| 0 <= i < a.len() implies a[i] == b[i] by {
            if i > 0 {
                assert(a[i] == c[i - 1]);
                assert(b[i] == d[i - 1]);
            }
        }
    }
    assert(a =~= b);
}

proof fn lemma_text_precedes_skip(a: Seq<char>, b: Seq<char>, n: int)
    requires
        0 <= n <= a.len(),
        n <= b.len(),
        a.take(n) == b.take(n),
    ensures
        text_precedes(a, b) == text_precedes(a.skip(n), b.skip(n)),
    decreases n,
{
    if n > 0 {
        assert(a[0] == a.take(n)[0]);
        assert(b[0] == b.take(n)[0]);
        assert(a.drop_first().take(n - 1) =~= a.take(n).drop_first());
        assert(b.drop_first().take(n - 1) =~= b.take(n).drop_first());
        lemma_text_precedes_skip(a.drop_first(), b.drop_first(), n - 1);
        assert(a.drop_first().skip(n - 1) =~= a.skip(n));
        assert(b.drop_first().skip(n - 1) =~= b.skip(n));
    } else {
        assert(a.skip(0) =~= a);
        assert(b.skip(0) =~= b);
    }
}

impl Ranked for String {
    open spec fn precedes(a: Seq<char>, b: Seq<char>) -> bool {
        text_precedes(a, b)
    }

    proof fn comparable(a: Seq<char>, b: Seq<char>) {
        lemma_text_comparable(a, b);
    }

    proof fn carries_over(a: Seq<char>, b: Seq<char>, c: Seq<char>) {
        lemma_text_carries_over(a, b, c);
    }

    fn may_precede(&self, other: &Self) -> (r: bool) {
        let a = text::chars_of(self.as_str());
        let b = text::chars_of(other.as_str());
        let mut i: usize = 0;
        while i < a.len() && i < b.len()
            invariant
                a@ == self@,
                b@ == other@,
                i <= a@.len(),
                i <= b@.len(),
                a@.take(i as int) == b@.take(i as int),
            decreases a@.len() - i,
        {
            if a[i] != b[i] {
                proof {
                    lemma_text_precedes_skip(a@, b@, i as int);
                }
                let x: char = a[i];
                let y: char = b[i];
                assert(a@.skip(i as int)[0] == x);
                assert(b@.skip(i as int)[0] == y);
                return x < y;
            }
            assert(a@.take(i + 1) =~= a@.take(i as int).push(a@[i as int]));
            assert(b@.take(i + 1) =~= b@.take(i as int).push(b@[i as int]));
            i += 1;
        }
        proof {
            lemma_text_precedes_skip(a@, b@, i as int);
        }
        i == a.len()
    }
}

/// The first characters in which two texts differ decide which of them precedes the other;
/// a text precedes what it is the beginning of.
pub proof fn law_first_difference_decides(a: Seq<char>, b: Seq<char>, n: int)
    requires
        0 <= n <= a.len(),
        n <= b.len(),
        a.take(n) == b.take(n),
    ensures
        n == a.len() ==> text_precedes(a, b),
        n < a.len() && n == b.len() ==> !text_precedes(a, b),
        n < a.len() && n < b.len() && a[n] != b[n] ==> (text_precedes(a, b) <==> (a[n] as int)
            < (b[n] as int)),
{
    lemma_text_precedes_skip(a, b, n);
    if n < a.len() {
        assert(a.skip(n)[0] == a[n]);
    }
    if n < b.len() {
        assert(b.skip(n)[0] == b[n]);
    }
}

/// What is sorted and then cut off holds the items that come first: an item that was cut
/// off precedes none of them strictly, and all are kept where there is room for them.
pub proof fn law_earliest_items_are_kept<T: Ranked>(s: Seq<T::V>, kept: Seq<T::V>, limit: nat)
    requires
        kept == sorted::<T>(s).take(
            if s.len() <= limit {
                s.len() as int
            } else {
                limit as int
            },
        ),
    ensures
        kept.len() == if s.len() <= limit {
            s.len()
        } else {
            limit
        },
        forall|i: int| 0 <= i < kept.len() ==> s.contains(#[trigger] kept[i]),
        forall|x: T::V, i: int|
            s.contains(x) && !kept.contains(x) && 0 <= i < kept.len() ==> #[trigger] T::precedes(
                kept[i],
                x,
            ),
        s.len() <= limit ==> forall|x: T::V| #[trigger] s.contains(x) ==> kept.contains(x),
{
    broadcast use vstd::seq_lib::group_to_multiset_ensures;

    let all = sorted::<T>(s);
    law_sorted_keeps_items::<T>(s);
    assert forall|i: int| 0 <= i < kept.len() implies s.contains(#[trigger] kept[i]) by {
        assert(all[i] == kept[i]);
        assert(all.contains(all[i]));
        assert(all.to_multiset().contains(all[i]));
    }
    assert forall|x: T::V, i: int|
        s.contains(x) && !kept.contains(x) && 0 <= i < kept.len() implies #[trigger] T::precedes(
        kept[i],
        x,
    ) by {
        assert(s.to_multiset().contains(x));
        assert(all.contains(x));
        let k = choose|k: int| 0 <= k < all.len() && all[k] == x;
        if k < kept.len() {
            assert(kept[k] == x);
        }
        law_sorted_is_in_order::<T>(s, i, k);
    }
    if s.len() <= limit {
        assert forall|x: T::V| #[trigger] s.contains(x) implies kept.contains(x) by {
            assert(s.to_multiset().contains(x));
            assert(all.contains(x));
            let k = choose|k: int| 0 <= k < all.len() && all[k] == x;
            assert(kept[k] == x);
        }
    }
}

/// Sorting neither adds nor drops an item.
pub proof fn law_sorted_holds_the_items<T: Ranked>(s: Seq<T::V>, x: T::V)
    ensures
        sorted::<T>(s).contains(x) <==> s.contains(x),
{
    broadcast use vstd::seq_lib::group_to_multiset_ensures;

    law_sorted_keeps_items::<T>(s);
    assert(s.contains(x) <==> s.to_multiset().count(x) > 0);
    assert(sorted::<T>(s).contains(x) <==> sorted::<T>(s).to_multiset().count(x) > 0);
}

} // verus!
