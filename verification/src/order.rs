//! The order of texts by code points, and sets of texts kept in that order.

use crate::text::{chars_of, same, views};
use vstd::prelude::*;
use vstd::relations::{sorted_by, total_ordering};

verus! {

/// `a` comes before `b` in the order by code points.
pub open spec fn less(a: Seq<char>, b: Seq<char>) -> bool
    decreases a.len(),
{
    if b.len() == 0 {
        false
    } else if a.len() == 0 {
        true
    } else if a[0] != b[0] {
        a[0] < b[0]
    } else {
        less(a.drop_first(), b.drop_first())
    }
}

/// The order is irreflexive and total.
pub proof fn lemma_less_total(a: Seq<char>, b: Seq<char>)
    ensures
        !less(a, a),
        !(less(a, b) && less(b, a)),
        less(a, b) || less(b, a) || a == b,
    decreases a.len(),
{
    if a.len() > 0 {
        if b.len() > 0 {
            lemma_less_total(a.drop_first(), b.drop_first());
            if a[0] == b[0] && a.drop_first() == b.drop_first() {
                assert(a =~= seq![a[0]] + a.drop_first());
                assert(b =~= seq![b[0]] + b.drop_first());
            }
        } else {
            lemma_less_total(a.drop_first(), a.drop_first());
        }
    } else if b.len() == 0 {
        assert(a =~= b);
    }
}

/// The order is transitive.
pub proof fn lemma_less_transitive(a: Seq<char>, b: Seq<char>, c: Seq<char>)
    requires
        less(a, b),
        less(b, c),
    ensures
        less(a, c),
    decreases a.len(),
{
    if a.len() > 0 && b.len() > 0 && c.len() > 0 && a[0] == b[0] && b[0] == c[0] {
        lemma_less_transitive(a.drop_first(), b.drop_first(), c.drop_first());
    }
}

/// Tells whether `a` comes before `b` in the order by code points.
pub fn text_less(a: &str, b: &str) -> (r: bool)
    ensures
        r == less(a@, b@),
{
    let x = chars_of(a);
    let y = chars_of(b);
    let mut i: usize = 0;
    assert(x@.skip(0) =~= x@);
    assert(y@.skip(0) =~= y@);
    while i < x.len() && i < y.len()
        invariant
            i <= x@.len(),
            i <= y@.len(),
            less(x@.skip(i as int), y@.skip(i as int)) == less(a@, b@),
        decreases x@.len() - i,
    {
        if x[i] != y[i] {
            return x[i] < y[i];
        }
        assert(x@.skip(i as int).drop_first() =~= x@.skip(i + 1));
        assert(y@.skip(i as int).drop_first() =~= y@.skip(i + 1));
        i = i + 1;
    }
    i < y.len()
}

/// A sequence of texts in strictly ascending order: a set, listed.
pub open spec fn ascending(v: Seq<Seq<char>>) -> bool {
    forall|i: int, j: int| 0 <= i < j < v.len() ==> less(#[trigger] v[i], #[trigger] v[j])
}

/// Tells whether `v` holds the text `s`.
pub fn contains(v: &Vec<String>, s: &str) -> (r: bool)
    ensures
        r == views(v@).contains(s@),
{
    let mut i: usize = 0;
    while i < v.len()
        invariant
            i <= v@.len(),
            forall|k: int| 0 <= k < i ==> #[trigger] views(v@)[k] != s@,
        decreases v@.len() - i,
    {
        if same(v[i].as_str(), s) {
            assert(views(v@)[i as int] == s@);
            return true;
        }
        i = i + 1;
    }
    false
}

/// Adds `s` to the set of texts `v`; tells whether it is new there.
pub fn insert(v: &mut Vec<String>, s: String) -> (r: bool)
    requires
        ascending(views(old(v)@)),
    ensures
        ascending(views(final(v)@)),
        r == !views(old(v)@).contains(s@),
        forall|t: Seq<char>|
            views(final(v)@).contains(t) <==> (views(old(v)@).contains(t) || t == s@),
        !r ==> final(v)@ == old(v)@,
        r ==> final(v)@.len() == old(v)@.len() + 1,
{
    let ghost before = views(v@);
    let mut i: usize = 0;
    while i < v.len() && text_less(v[i].as_str(), s.as_str())
        invariant
            i <= v@.len(),
            before == views(v@),
            ascending(before),
            forall|k: int| 0 <= k < i ==> less(#[trigger] before[k], s@),
        decreases v@.len() - i,
    {
        assert(before[i as int] == v@[i as int]@);
        i = i + 1;
    }
    if i < v.len() && same(v[i].as_str(), s.as_str()) {
        assert(before[i as int] == s@);
        return false;
    }
    proof {
        if i < v@.len() {
            assert(before[i as int] == v@[i as int]@);
            lemma_less_total(before[i as int], s@);
        }
        assert forall|k: int| i <= k < before.len() implies less(s@, #[trigger] before[k]) by {
            if k > i {
                assert(less(before[i as int], before[k]));
                lemma_less_transitive(s@, before[i as int], before[k]);
            }
        }
        if before.contains(s@) {
            let k = choose|k: int| 0 <= k < before.len() && before[k] == s@;
            lemma_less_total(s@, s@);
        }
    }
    let ghost text = s@;
    v.insert(i, s);
    let ghost after = views(v@);
    assert(after =~= before.insert(i as int, text));
    proof {
        assert forall|p: int, q: int| 0 <= p < q < after.len() implies less(
            #[trigger] after[p],
            #[trigger] after[q],
        ) by {
            if p == i {
                assert(after[q] == before[q - 1]);
            } else if q == i {
                assert(after[p] == before[p]);
            } else {
                let x = if p < i { p } else { p - 1 };
                let y = if q < i { q } else { q - 1 };
                assert(after[p] == before[x]);
                assert(after[q] == before[y]);
            }
        }
        assert forall|t: Seq<char>| after.contains(t) <==> (before.contains(t) || t == text) by {
            if before.contains(t) {
                let k = choose|k: int| 0 <= k < before.len() && before[k] == t;
                let x = if k < i { k } else { k + 1 };
                assert(after[x] == t);
            }
            if t == text {
                assert(after[i as int] == t);
            }
            if after.contains(t) {
                let k = choose|k: int| 0 <= k < after.len() && after[k] == t;
                if k < i {
                    assert(before[k] == t);
                } else if k > i {
                    assert(before[k - 1] == t);
                }
            }
        }
    }
    true
}

/// A sequence of texts in ascending order, where a text may occur more than
/// once.
pub open spec fn in_order(v: Seq<Seq<char>>) -> bool {
    forall|i: int, j: int| 0 <= i < j < v.len() ==> !less(#[trigger] v[j], #[trigger] v[i])
}

/// Puts a text where it belongs in texts that are in order.
fn place(v: &mut Vec<String>, s: String)
    requires
        in_order(views(old(v)@)),
    ensures
        in_order(views(final(v)@)),
        views(final(v)@).to_multiset() == views(old(v)@).to_multiset().insert(s@),
        final(v)@.len() == old(v)@.len() + 1,
{
    let ghost before = views(v@);
    let ghost text = s@;
    let mut i: usize = 0;
    while i < v.len() && text_less(v[i].as_str(), s.as_str())
        invariant
            i <= v@.len(),
            before == views(v@),
            text == s@,
            forall|k: int| 0 <= k < i ==> less(#[trigger] before[k], text),
        decreases v@.len() - i,
    {
        assert(before[i as int] == v@[i as int]@);
        i = i + 1;
    }
    proof {
        if i < v@.len() {
            assert(before[i as int] == v@[i as int]@);
        }
    }
    v.insert(i, s);
    let ghost after = views(v@);
    assert(after =~= before.insert(i as int, text));
    proof {
        vstd::seq_lib::to_multiset_insert(before, i as int, text);
        assert forall|p: int, q: int| 0 <= p < q < after.len() implies !less(
            #[trigger] after[q],
            #[trigger] after[p],
        ) by {
            if p == i {
                assert(after[q] == before[q - 1]);
                lemma_less_total(text, before[i as int]);
                if less(before[q - 1], text) {
                    if q - 1 > i {
                        lemma_less_total(before[q - 1], before[i as int]);
                        if before[q - 1] != before[i as int] {
                            lemma_less_transitive(before[i as int], before[q - 1], text);
                        }
                    }
                }
            } else if q == i {
                assert(after[p] == before[p]);
                lemma_less_total(before[p], text);
            } else {
                let x = if p < i { p } else { p - 1 };
                let y = if q < i { q } else { q - 1 };
                assert(after[p] == before[x]);
                assert(after[q] == before[y]);
            }
        }
    }
}

/// The texts in ascending order.
pub fn sort_texts(texts: &Vec<String>) -> (r: Vec<String>)
    ensures
        in_order(views(r@)),
        views(r@).to_multiset() == views(texts@).to_multiset(),
{
    let ghost all = views(texts@);
    let mut out: Vec<String> = Vec::new();
    let mut i: usize = 0;
    assert(views(out@) =~= all.take(0));
    while i < texts.len()
        invariant
            i <= texts@.len(),
            all == views(texts@),
            in_order(views(out@)),
            views(out@).to_multiset() == all.take(i as int).to_multiset(),
        decreases texts@.len() - i,
    {
        proof {
            vstd::seq_lib::to_multiset_build(all.take(i as int), all[i as int]);
            assert(all.take(i + 1) =~= all.take(i as int).push(all[i as int]));
        }
        place(&mut out, texts[i].clone());
        i = i + 1;
    }
    assert(all.take(all.len() as int) =~= all);
    out
}

/// Texts in order are settled by which of them there are, and how often: two
/// lists that hold the same texts equally often become the same when they are
/// put in order.
pub proof fn order_is_unique(a: Seq<Seq<char>>, b: Seq<Seq<char>>)
    requires
        in_order(a),
        in_order(b),
    ensures
        a == b <==> a.to_multiset() == b.to_multiset(),
{
    if a.to_multiset() == b.to_multiset() {
        let up_to = |x: Seq<char>, y: Seq<char>| !less(y, x);
        assert forall|x: Seq<char>| #[trigger] up_to(x, x) by {
            lemma_less_total(x, x);
        }
        assert forall|x: Seq<char>, y: Seq<char>| #[trigger] up_to(x, y) && #[trigger] up_to(
            y,
            x,
        ) implies x == y by {
            lemma_less_total(x, y);
        }
        assert forall|x: Seq<char>, y: Seq<char>| #[trigger] up_to(x, y) || #[trigger] up_to(y, x) by {
            lemma_less_total(x, y);
        }
        assert forall|x: Seq<char>, y: Seq<char>, z: Seq<char>| #[trigger]
            up_to(x, y) && #[trigger] up_to(y, z) implies up_to(x, z) by {
            lemma_less_total(x, y);
            lemma_less_total(y, z);
            if less(z, x) {
                if x != y {
                    lemma_less_transitive(z, x, y);
                }
            }
        }
        assert(total_ordering(up_to));
        assert(sorted_by(a, up_to));
        assert(sorted_by(b, up_to));
        vstd::seq_lib::lemma_sorted_unique(a, b, up_to);
    }
}

/// A set has one listing: texts in strictly ascending order are settled by
/// which of them there are.
pub proof fn listing_is_unique(a: Seq<Seq<char>>, b: Seq<Seq<char>>)
    requires
        ascending(a),
        ascending(b),
        forall|s: Seq<char>| a.contains(s) <==> b.contains(s),
    ensures
        a == b,
    decreases a.len(),
{
    if a.len() == 0 {
        if b.len() > 0 {
            assert(b.contains(b[0]));
        }
        assert(a =~= b);
    } else {
        assert(a.contains(a[0]));
        let x = a.last();
        let i = a.len() - 1;
        assert(a[i] == x);
        assert(a.contains(x));
        let k = choose|k: int| 0 <= k < b.len() && b[k] == x;
        let j = b.len() - 1;
        let y = b.last();
        assert(b[j] == y);
        assert(b.contains(y));
        let m = choose|m: int| 0 <= m < a.len() && a[m] == y;
        lemma_less_total(x, y);
        assert(x == y);
        let rest_a = a.drop_last();
        let rest_b = b.drop_last();
        assert forall|s: Seq<char>| rest_a.contains(s) <==> rest_b.contains(s) by {
            if rest_a.contains(s) {
                let p = choose|p: int| 0 <= p < rest_a.len() && rest_a[p] == s;
                assert(a[p] == s);
                assert(less(s, x));
                assert(a.contains(s));
                let q = choose|q: int| 0 <= q < b.len() && b[q] == s;
                lemma_less_total(s, x);
                assert(rest_b[q] == s);
            }
            if rest_b.contains(s) {
                let p = choose|p: int| 0 <= p < rest_b.len() && rest_b[p] == s;
                assert(b[p] == s);
                assert(less(s, y));
                assert(b.contains(s));
                let q = choose|q: int| 0 <= q < a.len() && a[q] == s;
                lemma_less_total(s, y);
                assert(rest_a[q] == s);
            }
        }
        listing_is_unique(rest_a, rest_b);
        assert(a =~= rest_a.push(x));
        assert(b =~= rest_b.push(x));
    }
}

/// Texts are ordered by the first character in which they differ, and a text
/// comes before whatever begins with it.
pub proof fn texts_are_ordered_by_their_first_difference(
    common: Seq<char>,
    a: char,
    b: char,
    rest_a: Seq<char>,
    rest_b: Seq<char>,
)
    ensures
        less(common, common.push(a) + rest_a),
        !less(common.push(a) + rest_a, common),
        a != b ==> (less(common.push(a) + rest_a, common.push(b) + rest_b) <==> a < b),
    decreases common.len(),
{
    let x = common.push(a) + rest_a;
    let y = common.push(b) + rest_b;
    if common.len() > 0 {
        let t = common.drop_first();
        texts_are_ordered_by_their_first_difference(t, a, b, rest_a, rest_b);
        assert(x.drop_first() =~= t.push(a) + rest_a);
        assert(y.drop_first() =~= t.push(b) + rest_b);
        assert(x[0] == common[0] && y[0] == common[0]);
    } else {
        assert(x[0] == a && y[0] == b);
    }
}

} // verus!
