//! The first and the last place of a value in a sequence.
use vstd::prelude::*;

verus! {

/// The index of the last `c` in `s`, or -1 where `s` holds none.
pub open spec fn last_index_of<T>(s: Seq<T>, c: T) -> int
    decreases s.len(),
{
    if s.len() == 0 {
        -1
    } else if s.last() == c {
        s.len() - 1
    } else {
        last_index_of(s.drop_last(), c)
    }
}

/// The index of the first `c` in `s`, or the length of `s` where it holds none.
pub open spec fn first_index_of<T>(s: Seq<T>, c: T) -> int
    decreases s.len(),
{
    if s.len() == 0 {
        0
    } else if s.first() == c {
        0
    } else {
        1 + first_index_of(s.drop_first(), c)
    }
}

/// What `last_index_of` returns is in range, points at a `c` unless it is -1,
/// and no `c` stands behind it.
pub proof fn lemma_last_index_of<T>(s: Seq<T>, c: T)
    ensures
        -1 <= last_index_of(s, c) < s.len(),
        last_index_of(s, c) >= 0 ==> s[last_index_of(s, c)] == c,
        forall|j: int| last_index_of(s, c) < j < s.len() ==> s[j] != c,
    decreases s.len(),
{
    if s.len() > 0 && s.last() != c {
        lemma_last_index_of(s.drop_last(), c);
        assert forall|j: int| last_index_of(s, c) < j < s.len() implies s[j] != c by {
            if j < s.len() - 1 {
                assert(s.drop_last()[j] == s[j]);
            }
        }
        if last_index_of(s, c) >= 0 {
            assert(s.drop_last()[last_index_of(s, c)] == s[last_index_of(s, c)]);
        }
    }
}

/// What `first_index_of` returns is in range, points at a `c` unless it is the
/// length, and no `c` stands before it.
pub proof fn lemma_first_index_of<T>(s: Seq<T>, c: T)
    ensures
        0 <= first_index_of(s, c) <= s.len(),
        first_index_of(s, c) < s.len() ==> s[first_index_of(s, c)] == c,
        forall|j: int| 0 <= j < first_index_of(s, c) ==> s[j] != c,
    decreases s.len(),
{
    if s.len() > 0 && s.first() != c {
        lemma_first_index_of(s.drop_first(), c);
        assert forall|j: int| 0 <= j < first_index_of(s, c) implies s[j] != c by {
            if j > 0 {
                assert(s.drop_first()[j - 1] == s[j]);
            }
        }
        if first_index_of(s, c) < s.len() {
            assert(s.drop_first()[first_index_of(s, c) - 1] == s[first_index_of(s, c)]);
        }
    }
}

/// An index that points at a `c` with no `c` behind it is the last index.
pub proof fn lemma_last_index_is<T>(s: Seq<T>, c: T, i: int)
    requires
        -1 <= i < s.len(),
        i >= 0 ==> s[i] == c,
        forall|j: int| i < j < s.len() ==> s[j] != c,
    ensures
        last_index_of(s, c) == i,
{
    lemma_last_index_of(s, c);
}

/// An index that points at a `c`, or is the length, with no `c` before it is
/// the first index.
pub proof fn lemma_first_index_is<T>(s: Seq<T>, c: T, i: int)
    requires
        0 <= i <= s.len(),
        i < s.len() ==> s[i] == c,
        forall|j: int| 0 <= j < i ==> s[j] != c,
    ensures
        first_index_of(s, c) == i,
{
    lemma_first_index_of(s, c);
}

/// Whether `s` holds `c`.
pub open spec fn holds<T>(s: Seq<T>, c: T) -> bool {
    first_index_of(s, c) < s.len()
}

/// `holds` says what `contains` says.
pub proof fn lemma_holds_contains<T>(s: Seq<T>, c: T)
    ensures
        holds(s, c) == s.contains(c),
        holds(s, c) == (last_index_of(s, c) >= 0),
{
    lemma_first_index_of(s, c);
    lemma_last_index_of(s, c);
    if s.contains(c) {
        let i = choose|i: int| 0 <= i < s.len() && s[i] == c;
        assert(s[i] == c);
    }
    if holds(s, c) {
        assert(s[first_index_of(s, c)] == c);
    }
    if last_index_of(s, c) >= 0 {
        assert(s[last_index_of(s, c)] == c);
    }
}

/// Where a value is first found once another has been appended.
pub proof fn lemma_first_index_push<T>(s: Seq<T>, c: T, q: T)
    ensures
        first_index_of(s.push(c), q) == if holds(s, q) {
            first_index_of(s, q)
        } else if q == c {
            s.len() as int
        } else {
            s.len() as int + 1
        },
{
    lemma_first_index_of(s, q);
    let i = first_index_of(s, q);
    let t = s.push(c);
    if holds(s, q) {
        assert(t[i] == q);
        assert forall|j: int| 0 <= j < i implies t[j] != q by {
            assert(t[j] == s[j]);
        }
        lemma_first_index_is(t, q, i);
    } else if q == c {
        assert forall|j: int| 0 <= j < s.len() implies t[j] != q by {
            assert(t[j] == s[j]);
        }
        lemma_first_index_is(t, q, s.len() as int);
    } else {
        assert forall|j: int| 0 <= j < s.len() + 1 implies t[j] != q by {
            if j < s.len() {
                assert(t[j] == s[j]);
            }
        }
        lemma_first_index_is(t, q, s.len() as int + 1);
    }
}

/// Where a value is first found once the entry at `i` has been taken out of
/// a sequence that holds nothing twice.
pub proof fn lemma_first_index_remove<T>(s: Seq<T>, i: int, q: T)
    requires
        s.no_duplicates(),
        0 <= i < s.len(),
    ensures
        s.remove(i).no_duplicates(),
        first_index_of(s.remove(i), q) == if q == s[i] {
            s.len() - 1
        } else if first_index_of(s, q) < i {
            first_index_of(s, q)
        } else if first_index_of(s, q) < s.len() {
            first_index_of(s, q) - 1
        } else {
            s.len() - 1
        },
{
    lemma_first_index_of(s, q);
    let t = s.remove(i);
    let p = first_index_of(s, q);
    assert forall|a: int, b: int| 0 <= a < t.len() && 0 <= b < t.len() && a != b implies t[a]
        != t[b] by {
        let a0 = if a < i { a } else { a + 1 };
        let b0 = if b < i { b } else { b + 1 };
        assert(t[a] == s[a0] && t[b] == s[b0]);
    }
    if q == s[i] {
        assert forall|j: int| 0 <= j < t.len() implies t[j] != q by {
            let j0 = if j < i { j } else { j + 1 };
            assert(t[j] == s[j0]);
        }
        lemma_first_index_is(t, q, t.len() as int);
    } else if p < i {
        assert(t[p] == s[p]);
        assert forall|j: int| 0 <= j < p implies t[j] != q by {
            assert(t[j] == s[j]);
        }
        lemma_first_index_is(t, q, p);
    } else if p < s.len() {
        assert(t[p - 1] == s[p]);
        assert forall|j: int| 0 <= j < p - 1 implies t[j] != q by {
            let j0 = if j < i { j } else { j + 1 };
            assert(t[j] == s[j0]);
        }
        lemma_first_index_is(t, q, p - 1);
    } else {
        assert forall|j: int| 0 <= j < t.len() implies t[j] != q by {
            let j0 = if j < i { j } else { j + 1 };
            assert(t[j] == s[j0]);
        }
        lemma_first_index_is(t, q, t.len() as int);
    }
}

/// A sequence that holds nothing twice still does so once a value that it
/// does not hold has been appended.
pub proof fn lemma_push_no_duplicates<T>(s: Seq<T>, c: T)
    requires
        s.no_duplicates(),
        !holds(s, c),
    ensures
        s.push(c).no_duplicates(),
{
    lemma_first_index_of(s, c);
    let t = s.push(c);
    assert forall|a: int, b: int| 0 <= a < t.len() && 0 <= b < t.len() && a != b implies t[a]
        != t[b] by {
        if a < s.len() {
            assert(t[a] == s[a]);
        }
        if b < s.len() {
            assert(t[b] == s[b]);
        }
    }
}

/// What a filtering map makes of an entry of a sequence stands in the result.
pub proof fn lemma_filter_map_holds<A, B>(s: Seq<A>, f: spec_fn(A) -> Option<B>, i: int)
    requires
        0 <= i < s.len(),
        f(s[i]) is Some,
    ensures
        s.filter_map(f).contains(f(s[i]).unwrap()),
    decreases s.len(),
{
    let rest = s.drop_last();
    let b = f(s[i]).unwrap();
    if i == s.len() - 1 {
        let out = rest.filter_map(f) + seq![b];
        assert(out[out.len() - 1] == b);
    } else {
        lemma_filter_map_holds(rest, f, i);
        let k = choose|k: int| 0 <= k < rest.filter_map(f).len() && rest.filter_map(f)[k] == b;
        match f(s.last()) {
            Some(x) => {
                assert((rest.filter_map(f) + seq![x])[k] == b);
            },
            None => {},
        }
    }
}

/// Each entry of the result of a filtering map was made of an entry of the
/// sequence.
pub proof fn lemma_filter_map_origin<A, B>(s: Seq<A>, f: spec_fn(A) -> Option<B>, k: int)
    requires
        0 <= k < s.filter_map(f).len(),
    ensures
        exists|i: int| 0 <= i < s.len() && f(#[trigger] s[i]) == Some(s.filter_map(f)[k]),
    decreases s.len(),
{
    let rest = s.drop_last();
    if s.len() > 0 {
        if k < rest.filter_map(f).len() {
            lemma_filter_map_origin(rest, f, k);
            let i = choose|i: int| 0 <= i < rest.len() && f(#[trigger] rest[i]) == Some(
                rest.filter_map(f)[k],
            );
            assert(s[i] == rest[i]);
            assert(f(s[i]) == Some(s.filter_map(f)[k]));
        } else {
            assert(f(s[s.len() - 1]) == Some(s.filter_map(f)[k]));
        }
    }
}

/// Two filtering maps of which each entry passes exactly one share the
/// entries between them.
pub proof fn lemma_filter_map_split<A, B, C>(
    s: Seq<A>,
    f: spec_fn(A) -> Option<B>,
    g: spec_fn(A) -> Option<C>,
)
    requires
        forall|a: A| (#[trigger] f(a) is Some) != (#[trigger] g(a) is Some),
    ensures
        s.filter_map(f).len() + s.filter_map(g).len() == s.len(),
    decreases s.len(),
{
    if s.len() > 0 {
        lemma_filter_map_split(s.drop_last(), f, g);
        assert(f(s.last()) is Some != g(s.last()) is Some);
    }
}

/// Two filtering maps that pass the same entries have results of one length.
pub proof fn lemma_filter_map_same_len<A, B, C>(
    s: Seq<A>,
    f: spec_fn(A) -> Option<B>,
    g: spec_fn(A) -> Option<C>,
)
    requires
        forall|a: A| (#[trigger] f(a) is Some) == (#[trigger] g(a) is Some),
    ensures
        s.filter_map(f).len() == s.filter_map(g).len(),
    decreases s.len(),
{
    if s.len() > 0 {
        lemma_filter_map_same_len(s.drop_last(), f, g);
        assert(f(s.last()) is Some == g(s.last()) is Some);
    }
}

} // verus!
