//! Searching and selecting in lists, by the values of their elements.

use vstd::prelude::*;

verus! {

/// The values of the elements of a list.
pub open spec fn views<T: View>(v: Seq<T>) -> Seq<T::V> {
    v.map_values(|x: T| x@)
}

/// The first element that meets the condition.
pub open spec fn first_match<A>(s: Seq<A>, p: spec_fn(A) -> bool) -> Option<A>
    decreases s.len(),
{
    if s.len() == 0 {
        None
    } else if p(s[0]) {
        Some(s[0])
    } else {
        first_match(s.drop_first(), p)
    }
}

/// The last element that meets the condition.
pub open spec fn last_match<A>(s: Seq<A>, p: spec_fn(A) -> bool) -> Option<A>
    decreases s.len(),
{
    if s.len() == 0 {
        None
    } else if p(s.last()) {
        Some(s.last())
    } else {
        last_match(s.drop_last(), p)
    }
}

/// Whether some element meets the condition.
pub open spec fn some_match<A>(s: Seq<A>, p: spec_fn(A) -> bool) -> bool {
    exists|i: int| 0 <= i < s.len() && p(#[trigger] s[i])
}

/// Whether two lists have an element in common.
pub open spec fn overlaps<A>(a: Seq<A>, b: Seq<A>) -> bool {
    exists|i: int| 0 <= i < a.len() && b.contains(#[trigger] a[i])
}

/// The value of an optional element.
pub open spec fn opt_view<T: View>(o: Option<&T>) -> Option<T::V> {
    match o {
        Some(x) => Some(x@),
        None => None,
    }
}

pub broadcast proof fn lemma_views_push<T: View>(v: Seq<T>, x: T)
    ensures
        #[trigger] views(v.push(x)) == views(v).push(x@),
{
    assert(views(v.push(x)) =~= views(v).push(x@));
}

pub broadcast proof fn lemma_views<T: View>(v: Seq<T>)
    ensures
        (#[trigger] views(v)).len() == v.len(),
        forall|i: int| 0 <= i < v.len() ==> #[trigger] views(v)[i] == v[i]@,
{
}

/// A first match, if there is one, is an element that meets the condition.
pub proof fn lemma_first_match<A>(s: Seq<A>, p: spec_fn(A) -> bool)
    ensures
        first_match(s, p) is Some <==> some_match(s, p),
        first_match(s, p) matches Some(x) ==> s.contains(x) && p(x),
    decreases s.len(),
{
    if s.len() > 0 {
        let d = s.drop_first();
        lemma_first_match(d, p);
        if p(s[0]) {
            assert(s.contains(s[0]));
        } else {
            if some_match(d, p) {
                let i = choose|i: int| 0 <= i < d.len() && p(#[trigger] d[i]);
                assert(p(s[i + 1]));
                let x = first_match(d, p)->0;
                let j = choose|j: int| 0 <= j < d.len() && d[j] == x;
                assert(s[j + 1] == x);
            }
            if some_match(s, p) {
                let i = choose|i: int| 0 <= i < s.len() && p(#[trigger] s[i]);
                assert(p(d[i - 1]));
            }
        }
    }
}

/// A last match, if there is one, is an element that meets the condition.
pub proof fn lemma_last_match<A>(s: Seq<A>, p: spec_fn(A) -> bool)
    ensures
        last_match(s, p) is Some <==> some_match(s, p),
        last_match(s, p) matches Some(x) ==> s.contains(x) && p(x),
    decreases s.len(),
{
    if s.len() > 0 {
        let d = s.drop_last();
        lemma_last_match(d, p);
        if p(s.last()) {
            assert(s[s.len() - 1] == s.last());
            assert(s.contains(s.last()));
        } else {
            if some_match(d, p) {
                let i = choose|i: int| 0 <= i < d.len() && p(#[trigger] d[i]);
                assert(p(s[i]));
                let x = last_match(d, p)->0;
                let j = choose|j: int| 0 <= j < d.len() && d[j] == x;
                assert(s[j] == x);
            }
            if some_match(s, p) {
                let i = choose|i: int| 0 <= i < s.len() && p(#[trigger] s[i]);
                assert(p(d[i]));
            }
        }
    }
}

/// The first match stands where nothing before it meets the condition.
pub proof fn lemma_first_at<A>(s: Seq<A>, p: spec_fn(A) -> bool, i: int)
    requires
        0 <= i < s.len(),
        p(s[i]),
        forall|j: int| 0 <= j < i ==> !p(#[trigger] s[j]),
    ensures
        first_match(s, p) == Some(s[i]),
    decreases s.len(),
{
    if i > 0 {
        let d = s.drop_first();
        assert(d[i - 1] == s[i]);
        assert forall|j: int| 0 <= j < i - 1 implies !p(#[trigger] d[j]) by {
            assert(d[j] == s[j + 1]);
        }
        assert(!p(s[0]));
        lemma_first_at(d, p, i - 1);
    }
}

/// Where the first match stands.
pub proof fn lemma_first_where<A>(s: Seq<A>, p: spec_fn(A) -> bool) -> (i: int)
    ensures
        match first_match(s, p) {
            Some(x) => 0 <= i < s.len() && s[i] == x && p(x) && forall|j: int|
                0 <= j < i ==> !p(#[trigger] s[j]),
            None => forall|j: int| 0 <= j < s.len() ==> !p(#[trigger] s[j]),
        },
    decreases s.len(),
{
    if s.len() == 0 || p(s[0]) {
        0
    } else {
        let d = s.drop_first();
        let k = lemma_first_where(d, p);
        assert forall|j: int| 0 < j < s.len() implies #[trigger] s[j] == d[j - 1] by {}
        k + 1
    }
}

/// The last match stands where nothing behind it meets the condition.
pub proof fn lemma_last_at<A>(s: Seq<A>, p: spec_fn(A) -> bool, i: int)
    requires
        0 <= i < s.len(),
        p(s[i]),
        forall|j: int| i < j < s.len() ==> !p(#[trigger] s[j]),
    ensures
        last_match(s, p) == Some(s[i]),
    decreases s.len(),
{
    if i < s.len() - 1 {
        assert(!p(s[s.len() - 1]));
        assert(s.drop_last()[i] == s[i]);
        lemma_last_at(s.drop_last(), p, i);
    }
}

/// Where the last match stands.
pub proof fn lemma_last_where<A>(s: Seq<A>, p: spec_fn(A) -> bool) -> (i: int)
    ensures
        match last_match(s, p) {
            Some(x) => 0 <= i < s.len() && s[i] == x && p(x) && forall|j: int|
                i < j < s.len() ==> !p(#[trigger] s[j]),
            None => forall|j: int| 0 <= j < s.len() ==> !p(#[trigger] s[j]),
        },
    decreases s.len(),
{
    if s.len() == 0 {
        0
    } else if p(s.last()) {
        s.len() - 1
    } else {
        let d = s.drop_last();
        let k = lemma_last_where(d, p);
        assert forall|j: int| 0 <= j < d.len() implies #[trigger] s[j] == d[j] by {}
        k
    }
}

/// What is collected of a list is what its elements give.
pub proof fn lemma_collected<A, B>(s: Seq<A>, f: spec_fn(A) -> Option<B>)
    ensures
        forall|b: B| #[trigger]
            s.filter_map(f).contains(b) <==> exists|i: int|
                0 <= i < s.len() && f(#[trigger] s[i]) == Some(b),
    decreases s.len(),
{
    if s.len() > 0 {
        let d = s.drop_last();
        let c = d.filter_map(f);
        lemma_collected(d, f);
        assert(s.filter_map(f) == match f(s.last()) {
            Some(b) => c.push(b),
            None => c,
        });
        assert forall|b: B| #[trigger] s.filter_map(f).contains(b) <==> exists|i: int|
            0 <= i < s.len() && f(#[trigger] s[i]) == Some(b) by {
            if s.filter_map(f).contains(b) {
                let k = choose|k: int| 0 <= k < s.filter_map(f).len() && s.filter_map(f)[k] == b;
                if k < c.len() {
                    assert(c[k] == b);
                    assert(c.contains(b));
                    let i = choose|i: int| 0 <= i < d.len() && f(#[trigger] d[i]) == Some(b);
                    assert(f(s[i]) == Some(b));
                } else {
                    assert(f(s[s.len() - 1]) == Some(b));
                }
            }
            if exists|i: int| 0 <= i < s.len() && f(#[trigger] s[i]) == Some(b) {
                let i = choose|i: int| 0 <= i < s.len() && f(#[trigger] s[i]) == Some(b);
                if i < d.len() {
                    assert(f(d[i]) == Some(b));
                    assert(c.contains(b));
                    let k = choose|k: int| 0 <= k < c.len() && c[k] == b;
                    assert(s.filter_map(f)[k] == b);
                } else {
                    assert(s.filter_map(f)[c.len() as int] == b);
                }
            }
        }
    }
}

/// The elements of a selection are the elements that meet the condition.
pub proof fn lemma_selection<A>(s: Seq<A>, p: spec_fn(A) -> bool)
    ensures
        forall|x: A| #[trigger] s.filter(p).contains(x) <==> s.contains(x) && p(x),
        s.filter(p).len() > 0 <==> some_match(s, p),
    decreases s.len(),
{
    reveal(Seq::filter);
    if s.len() > 0 {
        let d = s.drop_last();
        lemma_selection(d, p);
        let f = d.filter(p);
        assert forall|x: A| #[trigger] s.filter(p).contains(x) <==> s.contains(x) && p(x) by {
            if s.contains(x) && p(x) {
                let i = choose|i: int| 0 <= i < s.len() && s[i] == x;
                if i < d.len() {
                    assert(d[i] == x);
                    assert(f.contains(x));
                    let j = choose|j: int| 0 <= j < f.len() && f[j] == x;
                    assert(s.filter(p)[j] == x);
                } else {
                    assert(s.filter(p)[f.len() as int] == x);
                }
            }
            if s.filter(p).contains(x) {
                let j = choose|j: int| 0 <= j < s.filter(p).len() && s.filter(p)[j] == x;
                if j < f.len() {
                    assert(f[j] == x);
                    assert(f.contains(x));
                    let i = choose|i: int| 0 <= i < d.len() && d[i] == x;
                    assert(s[i] == x);
                } else {
                    assert(s[s.len() - 1] == x);
                }
            }
        }
        if some_match(d, p) {
            let i = choose|i: int| 0 <= i < d.len() && p(#[trigger] d[i]);
            assert(p(s[i]));
        }
        if some_match(s, p) {
            let i = choose|i: int| 0 <= i < s.len() && p(#[trigger] s[i]);
            if i < d.len() {
                assert(p(d[i]));
            }
        }
        if p(s.last()) {
            assert(p(s[s.len() - 1]));
        }
    }
}

/// The first element that meets the condition.
pub(crate) fn find_first<T: View, F: Fn(&T) -> bool>(
    v: &Vec<T>,
    p: F,
    Ghost(sp): Ghost<spec_fn(T::V) -> bool>,
) -> (r: Option<&T>)
    requires
        forall|x: &T| #[trigger] call_requires(p, (x,)),
        forall|x: &T, b: bool| #[trigger] call_ensures(p, (x,), b) ==> b == sp(x@),
    ensures
        opt_view(r) == first_match(views(v@), sp),
{
    let ghost s = views(v@);
    let mut i: usize = 0;
    proof {
        assert(s.skip(0) =~= s);
    }
    while i < v.len()
        invariant
            i <= v@.len(),
            s == views(v@),
            forall|x: &T| #[trigger] call_requires(p, (x,)),
            forall|x: &T, b: bool| #[trigger] call_ensures(p, (x,), b) ==> b == sp(x@),
            first_match(s, sp) == first_match(s.skip(i as int), sp),
        decreases v@.len() - i,
    {
        if p(&v[i]) {
            return Some(&v[i]);
        }
        proof {
            assert(s.skip(i as int).drop_first() =~= s.skip(i + 1));
        }
        i += 1;
    }
    None
}

/// The last element that meets the condition.
pub(crate) fn find_last<T: View, F: Fn(&T) -> bool>(
    v: &Vec<T>,
    p: F,
    Ghost(sp): Ghost<spec_fn(T::V) -> bool>,
) -> (r: Option<&T>)
    requires
        forall|x: &T| #[trigger] call_requires(p, (x,)),
        forall|x: &T, b: bool| #[trigger] call_ensures(p, (x,), b) ==> b == sp(x@),
    ensures
        opt_view(r) == last_match(views(v@), sp),
{
    let ghost s = views(v@);
    let mut i: usize = v.len();
    proof {
        assert(s.take(i as int) =~= s);
    }
    while i > 0
        invariant
            i <= v@.len(),
            s == views(v@),
            forall|x: &T| #[trigger] call_requires(p, (x,)),
            forall|x: &T, b: bool| #[trigger] call_ensures(p, (x,), b) ==> b == sp(x@),
            last_match(s, sp) == last_match(s.take(i as int), sp),
        decreases i,
    {
        i -= 1;
        proof {
            assert(s.take(i + 1).drop_last() =~= s.take(i as int));
        }
        if p(&v[i]) {
            return Some(&v[i]);
        }
    }
    None
}

/// Whether some element meets the condition.
pub(crate) fn any_of<T: View, F: Fn(&T) -> bool>(
    v: &Vec<T>,
    p: F,
    Ghost(sp): Ghost<spec_fn(T::V) -> bool>,
) -> (r: bool)
    requires
        forall|x: &T| #[trigger] call_requires(p, (x,)),
        forall|x: &T, b: bool| #[trigger] call_ensures(p, (x,), b) ==> b == sp(x@),
    ensures
        r == some_match(views(v@), sp),
{
    let ghost s = views(v@);
    let mut i: usize = 0;
    while i < v.len()
        invariant
            i <= v@.len(),
            s == views(v@),
            forall|x: &T| #[trigger] call_requires(p, (x,)),
            forall|x: &T, b: bool| #[trigger] call_ensures(p, (x,), b) ==> b == sp(x@),
            forall|j: int| 0 <= j < i ==> !sp(#[trigger] s[j]),
        decreases v@.len() - i,
    {
        if p(&v[i]) {
            assert(sp(s[i as int]));
            return true;
        }
        i += 1;
    }
    false
}

/// Copies of the elements that meet the condition, in order.
pub(crate) fn select<T: View, F: Fn(&T) -> bool, G: Fn(&T) -> T>(
    v: &Vec<T>,
    p: F,
    copy: G,
    Ghost(sp): Ghost<spec_fn(T::V) -> bool>,
) -> (r: Vec<T>)
    requires
        forall|x: &T| #[trigger] call_requires(p, (x,)),
        forall|x: &T, b: bool| #[trigger] call_ensures(p, (x,), b) ==> b == sp(x@),
        forall|x: &T| #[trigger] call_requires(copy, (x,)),
        forall|x: &T, y: T| #[trigger] call_ensures(copy, (x,), y) ==> y@ == x@,
    ensures
        views(r@) == views(v@).filter(sp),
{
    let ghost s = views(v@);
    let mut r: Vec<T> = Vec::new();
    let mut i: usize = 0;
    proof {
        reveal(Seq::filter);
        assert(views(r@) =~= s.take(0).filter(sp));
    }
    while i < v.len()
        invariant
            i <= v@.len(),
            s == views(v@),
            forall|x: &T| #[trigger] call_requires(p, (x,)),
            forall|x: &T, b: bool| #[trigger] call_ensures(p, (x,), b) ==> b == sp(x@),
            forall|x: &T| #[trigger] call_requires(copy, (x,)),
            forall|x: &T, y: T| #[trigger] call_ensures(copy, (x,), y) ==> y@ == x@,
            views(r@) == s.take(i as int).filter(sp),
        decreases v@.len() - i,
    {
        proof {
            reveal(Seq::filter);
            assert(s.take(i + 1).drop_last() =~= s.take(i as int));
        }
        if p(&v[i]) {
            let ghost b = r@;
            r.push(copy(&v[i]));
            proof {
                lemma_views_push(b, r@.last());
            }
        }
        i += 1;
    }
    assert(s.take(i as int) =~= s);
    r
}

/// The strings that a reading finds in the elements, in order.
pub(crate) fn collect<T: View, F: Fn(&T) -> Option<String>>(
    v: &Vec<T>,
    f: F,
    Ghost(sf): Ghost<spec_fn(T::V) -> Option<Seq<char>>>,
) -> (r: Vec<String>)
    requires
        forall|x: &T| #[trigger] call_requires(f, (x,)),
        forall|x: &T, t: Option<String>| #[trigger]
            call_ensures(f, (x,), t) ==> opt_string_view(t) == sf(x@),
    ensures
        views(r@) == views(v@).filter_map(sf),
{
    let ghost s = views(v@);
    let mut r: Vec<String> = Vec::new();
    let mut i: usize = 0;
    proof {
        assert(views(r@) =~= s.take(0).filter_map(sf));
    }
    while i < v.len()
        invariant
            i <= v@.len(),
            s == views(v@),
            forall|x: &T| #[trigger] call_requires(f, (x,)),
            forall|x: &T, t: Option<String>| #[trigger]
                call_ensures(f, (x,), t) ==> opt_string_view(t) == sf(x@),
            views(r@) == s.take(i as int).filter_map(sf),
        decreases v@.len() - i,
    {
        proof {
            s.lemma_filter_map_take_succ(sf, i as int);
        }
        if let Some(t) = f(&v[i]) {
            let ghost b = r@;
            r.push(t);
            proof {
                lemma_views_push(b, r@.last());
            }
        }
        proof {
            assert(views(r@) =~= s.take(i + 1).filter_map(sf));
        }
        i += 1;
    }
    assert(s.take(i as int) =~= s);
    r
}

/// The value of an optional string.
pub open spec fn opt_string_view(o: Option<String>) -> Option<Seq<char>> {
    match o {
        Some(x) => Some(x@),
        None => None,
    }
}

} // verus!
