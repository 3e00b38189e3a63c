//! The order of strings, and lists kept sorted without repetition.

use crate::text::{lemma_bytes_determine_text, str_eq, texts, Text};
use vstd::prelude::*;
use vstd::relations::*;
use vstd::seq_lib::*;
use vstd::string::*;
use vstd::utf8::*;

verus! {

/// Whether one byte string stands before another in lexicographic order.
pub open spec fn bytes_before(a: Seq<u8>, b: Seq<u8>) -> bool
    decreases a.len(),
{
    if b.len() == 0 {
        false
    } else if a.len() == 0 {
        true
    } else if a[0] != b[0] {
        a[0] < b[0]
    } else {
        bytes_before(a.drop_first(), b.drop_first())
    }
}

/// Whether one text stands before another: strings are ordered by their bytes.
pub open spec fn before(a: Text, b: Text) -> bool {
    bytes_before(encode_utf8(a), encode_utf8(b))
}

/// Whether one string stands before another.
pub fn str_before(a: &str, b: &str) -> (r: bool)
    ensures
        r == before(a@, b@),
{
    let x = a.as_bytes();
    let y = b.as_bytes();
    let mut i: usize = 0;
    proof {
        assert(x@.skip(0) =~= x@);
        assert(y@.skip(0) =~= y@);
    }
    while i < x.len() && i < y.len() && x[i] == y[i]
        invariant
            i <= x@.len(),
            i <= y@.len(),
            bytes_before(x@, y@) == bytes_before(x@.skip(i as int), y@.skip(i as int)),
        decreases x@.len() - i,
    {
        proof {
            assert(x@.skip(i as int).drop_first() =~= x@.skip(i + 1));
            assert(y@.skip(i as int).drop_first() =~= y@.skip(i + 1));
        }
        i += 1;
    }
    if i >= y.len() {
        false
    } else if i >= x.len() {
        true
    } else {
        x[i] < y[i]
    }
}

/// The list with the text put in before the first element that it stands before; a list that
/// already has the text on the way there is left alone.
pub open spec fn with_sorted(s: Seq<Text>, x: Text) -> Seq<Text>
    decreases s.len(),
{
    if s.len() == 0 {
        seq![x]
    } else if s[0] == x {
        s
    } else if before(x, s[0]) {
        seq![x] + s
    } else {
        seq![s[0]] + with_sorted(s.drop_first(), x)
    }
}

/// The texts of a list, each once, in increasing order.
pub open spec fn sorted_set(s: Seq<Text>) -> Seq<Text>
    decreases s.len(),
{
    if s.len() == 0 {
        Seq::empty()
    } else {
        with_sorted(sorted_set(s.drop_last()), s.last())
    }
}

/// Whether every element stands before all that follow it.
pub open spec fn increasing(s: Seq<Text>) -> bool {
    forall|i: int, j: int| 0 <= i < j < s.len() ==> #[trigger] before(s[i], #[trigger] s[j])
}

/// Puts a text into a sorted list, once.
pub fn insert_sorted(v: &mut Vec<String>, x: String)
    ensures
        texts(final(v)@) == with_sorted(texts(old(v)@), x@),
{
    let ghost t = texts(v@);
    let mut i: usize = 0;
    proof {
        assert(t.skip(0) =~= t);
        assert(t.take(0) + with_sorted(t, x@) =~= with_sorted(t, x@));
    }
    while i < v.len() && !str_eq(v[i].as_str(), x.as_str()) && !str_before(
        x.as_str(),
        v[i].as_str(),
    )
        invariant
            i <= v@.len(),
            t == texts(v@),
            with_sorted(t, x@) == t.take(i as int) + with_sorted(t.skip(i as int), x@),
        decreases v@.len() - i,
    {
        proof {
            let r = t.skip(i as int);
            assert(r.drop_first() =~= t.skip(i + 1));
            assert(t.take(i + 1) =~= t.take(i as int).push(t[i as int]));
            assert(with_sorted(r, x@) == seq![r[0]] + with_sorted(r.drop_first(), x@));
            assert(t.take(i as int) + (seq![r[0]] + with_sorted(t.skip(i + 1), x@)) =~= t.take(
                i + 1,
            ) + with_sorted(t.skip(i + 1), x@));
        }
        i += 1;
    }
    let ghost r = t.skip(i as int);
    if i < v.len() && str_eq(v[i].as_str(), x.as_str()) {
        assert(t.take(i as int) + r =~= t);
        return;
    }
    let ghost xs = x@;
    v.insert(i, x);
    proof {
        assert(with_sorted(r, xs) =~= seq![xs] + r);
        assert(texts(v@) =~= t.take(i as int) + (seq![xs] + r));
    }
}

/// The texts of a list, each once, in increasing order.
pub fn sort_unique(v: &Vec<String>) -> (r: Vec<String>)
    ensures
        texts(r@) == sorted_set(texts(v@)),
{
    let mut r: Vec<String> = Vec::new();
    insert_all(&mut r, v);
    proof {
        lemma_sorted_all_of_empty(texts(v@));
        assert(texts(Seq::<String>::empty()) =~= Seq::<Text>::empty());
    }
    r
}

/// The sorted list with each of the texts put in.
pub open spec fn with_all_sorted(s: Seq<Text>, more: Seq<Text>) -> Seq<Text>
    decreases more.len(),
{
    if more.len() == 0 {
        s
    } else {
        with_sorted(with_all_sorted(s, more.drop_last()), more.last())
    }
}

proof fn lemma_sorted_all_of_empty(v: Seq<Text>)
    ensures
        with_all_sorted(Seq::empty(), v) == sorted_set(v),
    decreases v.len(),
{
    if v.len() > 0 {
        lemma_sorted_all_of_empty(v.drop_last());
    }
}

/// Puts each of the texts into a sorted list, once.
pub fn insert_all(r: &mut Vec<String>, v: &Vec<String>)
    ensures
        texts(final(r)@) == with_all_sorted(texts(old(r)@), texts(v@)),
{
    let ghost start = texts(r@);
    let mut i: usize = 0;
    while i < v.len()
        invariant
            i <= v@.len(),
            texts(r@) == with_all_sorted(start, texts(v@).take(i as int)),
        decreases v@.len() - i,
    {
        insert_sorted(r, v[i].clone());
        proof {
            assert(texts(v@).take(i + 1).drop_last() =~= texts(v@).take(i as int));
        }
        i += 1;
    }
    assert(texts(v@).take(i as int) =~= texts(v@));
}

proof fn lemma_bytes_order(a: Seq<u8>, b: Seq<u8>, c: Seq<u8>)
    ensures
        !bytes_before(a, a),
        a != b ==> bytes_before(a, b) || bytes_before(b, a),
        bytes_before(a, b) && bytes_before(b, c) ==> bytes_before(a, c),
    decreases a.len(),
{
    if a.len() > 0 {
        let (x, y, z) = (a.drop_first(), b.drop_first(), c.drop_first());
        if b.len() > 0 {
            lemma_bytes_order(x, y, if c.len() > 0 { z } else { x });
            if a[0] == b[0] && x == y {
                assert(a =~= seq![a[0]] + x);
                assert(b =~= seq![b[0]] + y);
            }
        } else {
            lemma_bytes_order(x, x, x);
        }
    } else if b.len() == 0 {
        assert(a =~= b);
    }
}

/// The order of texts is a strict total order.
pub proof fn strings_are_totally_ordered(a: Text, b: Text, c: Text)
    ensures
        !before(a, a),
        a != b ==> before(a, b) || before(b, a),
        before(a, b) && before(b, c) ==> before(a, c),
{
    lemma_bytes_order(encode_utf8(a), encode_utf8(b), encode_utf8(c));
    lemma_bytes_determine_text(a, b);
}

proof fn lemma_with_sorted(s: Seq<Text>, x: Text)
    requires
        increasing(s),
    ensures
        increasing(with_sorted(s, x)),
        forall|y: Text| #[trigger] with_sorted(s, x).contains(y) <==> s.contains(y) || y == x,
    decreases s.len(),
{
    let r = with_sorted(s, x);
    if s.len() == 0 {
        assert(r[0] == x);
    } else if s[0] == x {
    } else if before(x, s[0]) {
        assert(r =~= seq![x] + s);
        assert forall|i: int, j: int| 0 <= i < j < r.len() implies #[trigger] before(
            r[i],
            #[trigger] r[j],
        ) by {
            if i == 0 && j > 1 {
                assert(before(s[0], s[j - 1]));
                strings_are_totally_ordered(x, s[0], s[j - 1]);
            } else if i > 0 {
                assert(before(s[i - 1], s[j - 1]));
            }
        }
        assert(r[0] == x);
        assert forall|y: Text| s.contains(y) implies #[trigger] r.contains(y) by {
            let k = choose|k: int| 0 <= k < s.len() && s[k] == y;
            assert(r[k + 1] == y);
        }
    } else {
        let d = s.drop_first();
        let w = with_sorted(d, x);
        assert(increasing(d)) by {
            assert forall|i: int, j: int| 0 <= i < j < d.len() implies #[trigger] before(
                d[i],
                #[trigger] d[j],
            ) by {
                assert(before(s[i + 1], s[j + 1]));
            }
        }
        lemma_with_sorted(d, x);
        strings_are_totally_ordered(x, s[0], x);
        assert(r =~= seq![s[0]] + w);
        assert forall|i: int, j: int| 0 <= i < j < r.len() implies #[trigger] before(
            r[i],
            #[trigger] r[j],
        ) by {
            if i == 0 {
                assert(w.contains(w[j - 1]));
                if w[j - 1] != x {
                    let k = choose|k: int| 0 <= k < d.len() && d[k] == w[j - 1];
                    assert(before(s[0], s[k + 1]));
                }
            } else {
                assert(before(w[i - 1], w[j - 1]));
            }
        }
        assert forall|y: Text| #[trigger] r.contains(y) <==> s.contains(y) || y == x by {
            if r.contains(y) {
                let k = choose|k: int| 0 <= k < r.len() && r[k] == y;
                if k > 0 {
                    assert(w[k - 1] == y);
                    assert(w.contains(y));
                    if y != x {
                        let m = choose|m: int| 0 <= m < d.len() && d[m] == y;
                        assert(s[m + 1] == y);
                    }
                }
            }
            if s.contains(y) || y == x {
                if y == s[0] {
                    assert(r[0] == y);
                } else {
                    if y != x {
                        let m = choose|m: int| 0 <= m < s.len() && s[m] == y;
                        assert(d[m - 1] == y);
                        assert(d.contains(y));
                    }
                    assert(w.contains(y));
                    let k = choose|k: int| 0 <= k < w.len() && w[k] == y;
                    assert(r[k + 1] == y);
                }
            }
        }
    }
}

/// A sorted list without repetition holds exactly the texts of the list it was made from, in
/// strictly increasing order.
pub proof fn sorted_set_holds_the_same_texts_in_order(s: Seq<Text>)
    ensures
        increasing(sorted_set(s)),
        forall|y: Text| #[trigger] sorted_set(s).contains(y) <==> s.contains(y),
    decreases s.len(),
{
    if s.len() > 0 {
        let d = s.drop_last();
        sorted_set_holds_the_same_texts_in_order(d);
        lemma_with_sorted(sorted_set(d), s.last());
        assert forall|y: Text| #[trigger] sorted_set(s).contains(y) <==> s.contains(y) by {
            if s.contains(y) && y != s.last() {
                let k = choose|k: int| 0 <= k < s.len() && s[k] == y;
                assert(d[k] == y);
            }
            if d.contains(y) {
                let k = choose|k: int| 0 <= k < d.len() && d[k] == y;
                assert(s[k] == y);
            }
            assert(s[s.len() - 1] == s.last());
        }
    }
}

/// Putting more texts into a sorted list keeps it sorted and adds exactly those texts.
pub proof fn inserting_all_keeps_order(s: Seq<Text>, more: Seq<Text>)
    requires
        increasing(s),
    ensures
        increasing(with_all_sorted(s, more)),
        forall|y: Text| #[trigger]
            with_all_sorted(s, more).contains(y) <==> s.contains(y) || more.contains(y),
    decreases more.len(),
{
    if more.len() > 0 {
        let d = more.drop_last();
        inserting_all_keeps_order(s, d);
        lemma_with_sorted(with_all_sorted(s, d), more.last());
        assert forall|y: Text| #[trigger]
            with_all_sorted(s, more).contains(y) <==> s.contains(y) || more.contains(y) by {
            if more.contains(y) && y != more.last() {
                let k = choose|k: int| 0 <= k < more.len() && more[k] == y;
                assert(d[k] == y);
            }
            if d.contains(y) {
                let k = choose|k: int| 0 <= k < d.len() && d[k] == y;
                assert(more[k] == y);
            }
            assert(more[more.len() - 1] == more.last());
        }
    }
}

proof fn lemma_tail_of_increasing(s: Seq<Text>, y: Text)
    requires
        increasing(s),
        s.len() > 0,
    ensures
        increasing(s.drop_first()),
        s.drop_first().contains(y) <==> s.contains(y) && y != s[0],
{
    let d = s.drop_first();
    assert forall|i: int, j: int| 0 <= i < j < d.len() implies #[trigger] before(
        d[i],
        #[trigger] d[j],
    ) by {
        assert(before(s[i + 1], s[j + 1]));
    }
    if d.contains(y) {
        let i = choose|i: int| 0 <= i < d.len() && d[i] == y;
        assert(s[i + 1] == y);
        assert(before(s[0], s[i + 1]));
        strings_are_totally_ordered(y, y, y);
    }
    if s.contains(y) && y != s[0] {
        let i = choose|i: int| 0 <= i < s.len() && s[i] == y;
        assert(d[i - 1] == y);
    }
}

proof fn lemma_least_is_first(a: Seq<Text>, b: Seq<Text>)
    requires
        increasing(a),
        increasing(b),
        a.len() > 0,
        b.len() > 0,
        a.contains(b[0]),
        b.contains(a[0]),
    ensures
        a[0] == b[0],
{
    let k = choose|k: int| 0 <= k < b.len() && b[k] == a[0];
    let m = choose|m: int| 0 <= m < a.len() && a[m] == b[0];
    if k > 0 && m > 0 {
        assert(before(b[0], b[k]));
        assert(before(a[0], a[m]));
        strings_are_totally_ordered(a[0], b[0], a[0]);
    }
}

/// A set of texts has one increasing listing.
pub proof fn increasing_listing_is_unique(a: Seq<Text>, b: Seq<Text>)
    requires
        increasing(a),
        increasing(b),
        forall|y: Text| #[trigger] a.contains(y) <==> b.contains(y),
    ensures
        a == b,
    decreases a.len(),
{
    if b.len() > 0 {
        assert(b.contains(b[0]));
        assert(a.contains(b[0]));
    }
    if a.len() > 0 {
        assert(a.contains(a[0]));
        assert(b.contains(a[0]));
        lemma_least_is_first(a, b);
        let c = a.drop_first();
        let d = b.drop_first();
        lemma_tail_of_increasing(a, a[0]);
        lemma_tail_of_increasing(b, b[0]);
        assert forall|y: Text| #[trigger] c.contains(y) <==> d.contains(y) by {
            lemma_tail_of_increasing(a, y);
            lemma_tail_of_increasing(b, y);
            assert(a.contains(y) <==> b.contains(y));
        }
        increasing_listing_is_unique(c, d);
        assert(a =~= seq![a[0]] + c);
        assert(b =~= seq![b[0]] + d);
    } else {
        assert(a =~= b);
    }
}

/// Lists with the same texts sort to the same list, whatever their order and repetitions.
pub proof fn sorting_forgets_order(a: Seq<Text>, b: Seq<Text>)
    requires
        forall|y: Text| #[trigger] a.contains(y) <==> b.contains(y),
    ensures
        sorted_set(a) == sorted_set(b),
{
    sorted_set_holds_the_same_texts_in_order(a);
    sorted_set_holds_the_same_texts_in_order(b);
    assert forall|y: Text| #[trigger] sorted_set(a).contains(y) <==> sorted_set(b).contains(y) by {
        assert(a.contains(y) <==> b.contains(y));
    }
    increasing_listing_is_unique(sorted_set(a), sorted_set(b));
}

/// Whether one text stands before another or is the same.
pub open spec fn at_most(a: Text, b: Text) -> bool {
    !before(b, a)
}

/// The texts of a list in order, repetitions kept.
pub open spec fn sorted_list(s: Seq<Text>) -> Seq<Text> {
    s.sort_by(|a: Text, b: Text| at_most(a, b))
}

proof fn lemma_at_most_is_total()
    ensures
        total_ordering(|a: Text, b: Text| at_most(a, b)),
{
    let leq = |a: Text, b: Text| at_most(a, b);
    assert forall|x: Text| #[trigger] leq(x, x) by {
        strings_are_totally_ordered(x, x, x);
    }
    assert forall|x: Text, y: Text| #[trigger] leq(x, y) && #[trigger] leq(y, x) implies x == y by {
        strings_are_totally_ordered(x, y, x);
    }
    assert forall|x: Text, y: Text| #[trigger] leq(x, y) || #[trigger] leq(y, x) by {
        strings_are_totally_ordered(x, y, x);
    }
    assert forall|x: Text, y: Text, z: Text| #[trigger] leq(x, y) && #[trigger] leq(
        y,
        z,
    ) implies leq(x, z) by {
        strings_are_totally_ordered(z, x, y);
        strings_are_totally_ordered(x, y, x);
        strings_are_totally_ordered(y, z, x);
    }
}

/// Two orders of the same texts sort to the same list.
pub proof fn sorting_ignores_arrangement(a: Seq<Text>, b: Seq<Text>)
    requires
        a.to_multiset() == b.to_multiset(),
    ensures
        sorted_list(a) == sorted_list(b),
{
    let leq = |a: Text, b: Text| at_most(a, b);
    lemma_at_most_is_total();
    a.lemma_sort_by_ensures(leq);
    b.lemma_sort_by_ensures(leq);
    lemma_sorted_unique(sorted_list(a), sorted_list(b), leq);
}

proof fn lemma_insert_keeps_order(s: Seq<Text>, i: int, x: Text)
    requires
        sorted_by(s, |a: Text, b: Text| at_most(a, b)),
        0 <= i <= s.len(),
        i > 0 ==> at_most(s[i - 1], x),
        i < s.len() ==> at_most(x, s[i]),
    ensures
        sorted_by(s.insert(i, x), |a: Text, b: Text| at_most(a, b)),
{
    let leq = |a: Text, b: Text| at_most(a, b);
    let r = s.insert(i, x);
    lemma_at_most_is_total();
    assert forall|j: int, k: int| 0 <= j < k < r.len() implies #[trigger] leq(r[j], r[k]) by {
        if k == i {
            if j < i - 1 {
                assert(leq(s[j], s[i - 1]));
                assert(leq(s[i - 1], x));
            }
        } else if j == i {
            if k > i + 1 {
                assert(leq(s[i], s[k - 1]));
                assert(leq(x, s[i]));
            }
        } else {
            let m = if j < i { j } else { j - 1 };
            let n = if k < i { k } else { k - 1 };
            assert(leq(s[m], s[n]));
        }
    }
}

/// The texts of a list in order, repetitions kept.
pub fn sort_texts(v: &Vec<String>) -> (r: Vec<String>)
    ensures
        texts(r@) == sorted_list(texts(v@)),
{
    let ghost leq = |a: Text, b: Text| at_most(a, b);
    let ghost t = texts(v@);
    let mut r: Vec<String> = Vec::new();
    let mut i: usize = 0;
    proof {
        assert(texts(r@) =~= t.take(0));
    }
    while i < v.len()
        invariant
            i <= v@.len(),
            r@.len() == i,
            t == texts(v@),
            leq == (|a: Text, b: Text| at_most(a, b)),
            sorted_by(texts(r@), leq),
            texts(r@).to_multiset() == t.take(i as int).to_multiset(),
        decreases v@.len() - i,
    {
        let ghost s = texts(r@);
        let mut k: usize = r.len();
        while k > 0 && str_before(v[i].as_str(), r[k - 1].as_str())
            invariant
                i < v@.len(),
                k <= r@.len(),
                s == texts(r@),
                k < r@.len() ==> at_most(v@[i as int]@, s[k as int]),
            decreases k,
        {
            proof {
                strings_are_totally_ordered(v@[i as int]@, s[k - 1], v@[i as int]@);
            }
            k -= 1;
        }
        let x = v[i].clone();
        let ghost xs = x@;
        r.insert(k, x);
        proof {
            lemma_insert_keeps_order(s, k as int, xs);
            assert(texts(r@) =~= s.insert(k as int, xs));
            to_multiset_insert(s, k as int, xs);
            assert(t.take(i + 1) =~= t.take(i as int).push(xs));
            assert(t.take(i + 1).to_multiset() == t.take(i as int).to_multiset().insert(xs)) by {
                broadcast use group_to_multiset_ensures;
            }
        }
        i += 1;
    }
    proof {
        assert(t.take(i as int) =~= t);
        lemma_at_most_is_total();
        t.lemma_sort_by_ensures(leq);
        lemma_sorted_unique(texts(r@), sorted_list(t), leq);
    }
    r
}

/// An increasing list holds each text once.
pub proof fn lemma_increasing_no_duplicates(s: Seq<Text>)
    requires
        increasing(s),
    ensures
        s.no_duplicates(),
{
    assert forall|i: int, j: int| 0 <= i < s.len() && 0 <= j < s.len() && i != j implies s[i]
        != s[j] by {
        if i < j {
            assert(before(s[i], s[j]));
        } else {
            assert(before(s[j], s[i]));
        }
        strings_are_totally_ordered(s[i], s[i], s[i]);
    }
}

} // verus!
