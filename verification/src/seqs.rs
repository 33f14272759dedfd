use vstd::prelude::*;

verus! {

/// The least index at or after `k` whose element satisfies `p`.
pub open spec fn first_from<T>(s: Seq<T>, p: spec_fn(T) -> bool, k: int) -> Option<int>
    decreases s.len() - k,
{
    if k < 0 || k >= s.len() {
        None
    } else if p(s[k]) {
        Some(k)
    } else {
        first_from(s, p, k + 1)
    }
}

/// The least index whose element satisfies `p`: where a linear scan stops.
pub open spec fn first_where<T>(s: Seq<T>, p: spec_fn(T) -> bool) -> Option<int> {
    first_from(s, p, 0)
}

/// Whether an index computed at run time is the position that the model names.
pub open spec fn found_at(r: Option<usize>, pos: Option<int>) -> bool {
    match r {
        Some(i) => pos == Some(i as int),
        None => pos is None,
    }
}

/// The images, in order, of the elements that `f` keeps.
pub open spec fn collect<T, U>(s: Seq<T>, f: spec_fn(T) -> Option<U>) -> Seq<U>
    decreases s.len(),
{
    if s.len() == 0 {
        Seq::empty()
    } else {
        let rest = collect(s.drop_last(), f);
        match f(s.last()) {
            Some(u) => rest.push(u),
            None => rest,
        }
    }
}

/// The images of the elements under `f`, in order, laid end to end.
pub open spec fn gather<T, U>(s: Seq<T>, f: spec_fn(T) -> Seq<U>) -> Seq<U>
    decreases s.len(),
{
    if s.len() == 0 {
        Seq::empty()
    } else {
        gather(s.drop_last(), f) + f(s.last())
    }
}

pub proof fn lemma_first_from<T>(s: Seq<T>, p: spec_fn(T) -> bool, k: int)
    requires
        0 <= k <= s.len(),
    ensures
        match first_from(s, p, k) {
            Some(i) => k <= i < s.len() && p(s[i]) && forall|j: int| k <= j < i ==> !p(s[j]),
            None => forall|j: int| k <= j < s.len() ==> !p(s[j]),
        },
    decreases s.len() - k,
{
    if k < s.len() && !p(s[k]) {
        lemma_first_from(s, p, k + 1);
    }
}

/// `first_where` names the first match, or reports that there is none.
pub proof fn lemma_first_where<T>(s: Seq<T>, p: spec_fn(T) -> bool)
    ensures
        match first_where(s, p) {
            Some(i) => 0 <= i < s.len() && p(s[i]) && forall|j: int| 0 <= j < i ==> !p(s[j]),
            None => forall|j: int| 0 <= j < s.len() ==> !p(s[j]),
        },
{
    lemma_first_from(s, p, 0);
}

/// A match with no match before it is the first one.
pub proof fn lemma_first_where_is<T>(s: Seq<T>, p: spec_fn(T) -> bool, i: int)
    requires
        0 <= i < s.len(),
        p(s[i]),
        forall|j: int| 0 <= j < i ==> !p(s[j]),
    ensures
        first_where(s, p) == Some(i),
{
    lemma_first_where(s, p);
}

/// Two scans that agree element by element stop at the same place.
pub proof fn lemma_first_where_same<T, U>(
    a: Seq<T>,
    p: spec_fn(T) -> bool,
    b: Seq<U>,
    q: spec_fn(U) -> bool,
)
    requires
        a.len() == b.len(),
        forall|j: int| 0 <= j < a.len() ==> p(a[j]) == q(b[j]),
    ensures
        first_where(a, p) == first_where(b, q),
{
    lemma_first_where(a, p);
    lemma_first_where(b, q);
}

/// Appending an element leaves an earlier match in place and adds at most one at the end.
pub proof fn lemma_first_where_push<T>(s: Seq<T>, p: spec_fn(T) -> bool, x: T)
    ensures
        first_where(s.push(x), p) == match first_where(s, p) {
            Some(i) => Some(i),
            None => if p(x) {
                Some(s.len() as int)
            } else {
                None
            },
        },
{
    let t = s.push(x);
    lemma_first_where(s, p);
    lemma_first_where(t, p);
    assert(forall|j: int| 0 <= j < s.len() ==> t[j] == s[j]);
    assert(t[s.len() as int] == x);
    match first_where(s, p) {
        Some(i) => {
            assert(p(t[i]));
            if first_where(t, p) is None {
                assert(!p(t[i]));
            } else {
                let k = first_where(t, p).unwrap();
                if k < i {
                    assert(t[k] == s[k]);
                } else if k > i {
                    assert(!p(t[i]));
                }
            }
        },
        None => {
            if p(x) {
                assert forall|j: int| 0 <= j < s.len() implies !p(t[j]) by {
                    assert(t[j] == s[j]);
                }
                lemma_first_where_is(t, p, s.len() as int);
            } else {
                if first_where(t, p) is Some {
                    let k = first_where(t, p).unwrap();
                    if k < s.len() {
                        assert(t[k] == s[k]);
                    }
                }
            }
        },
    }
}

/// One more element of the source adds its image, if it has one.
pub proof fn lemma_collect_step<T, U>(s: Seq<T>, f: spec_fn(T) -> Option<U>, i: int)
    requires
        0 <= i < s.len(),
    ensures
        collect(s.take(i + 1), f) == match f(s[i]) {
            Some(u) => collect(s.take(i), f).push(u),
            None => collect(s.take(i), f),
        },
{
    assert(s.take(i + 1).drop_last() =~= s.take(i));
}

/// One more element of the source adds its image at the end.
pub proof fn lemma_gather_step<T, U>(s: Seq<T>, f: spec_fn(T) -> Seq<U>, i: int)
    requires
        0 <= i < s.len(),
    ensures
        gather(s.take(i + 1), f) == gather(s.take(i), f) + f(s[i]),
{
    assert(s.take(i + 1).drop_last() =~= s.take(i));
}

/// The view of a vector after a push is the view before it with the new element's view
/// appended.
pub proof fn lemma_deep_push<T: DeepView>(before: Vec<T>, after: Vec<T>, x: T)
    requires
        after@ == before@.push(x),
    ensures
        after.deep_view() == before.deep_view().push(x.deep_view()),
{
    assert(after.deep_view() =~= before.deep_view().push(x.deep_view()));
}

/// Everything collected is the image of an element of the source.
pub proof fn lemma_collect_members<T, U>(s: Seq<T>, f: spec_fn(T) -> Option<U>, k: int)
    requires
        0 <= k < collect(s, f).len(),
    ensures
        exists|i: int| 0 <= i < s.len() && f(#[trigger] s[i]) == Some(collect(s, f)[k]),
    decreases s.len(),
{
    let rest = collect(s.drop_last(), f);
    if k < rest.len() {
        lemma_collect_members(s.drop_last(), f, k);
        let i = choose|i: int|
            0 <= i < s.drop_last().len() && f(#[trigger] s.drop_last()[i]) == Some(rest[k]);
        assert(s[i] == s.drop_last()[i]);
    } else {
        assert(f(s[s.len() - 1]) == Some(collect(s, f)[k]));
    }
}

/// Everything gathered is an element of the image of an element of the source.
pub proof fn lemma_gather_members<T, U>(s: Seq<T>, f: spec_fn(T) -> Seq<U>, k: int)
    requires
        0 <= k < gather(s, f).len(),
    ensures
        exists|i: int, j: int|
            0 <= i < s.len() && 0 <= j < f(s[i]).len() && #[trigger] f(s[i])[j] == gather(s, f)[k],
    decreases s.len(),
{
    let rest = gather(s.drop_last(), f);
    if k < rest.len() {
        lemma_gather_members(s.drop_last(), f, k);
        let (i, j) = choose|i: int, j: int|
            0 <= i < s.drop_last().len() && 0 <= j < f(s.drop_last()[i]).len() && #[trigger] f(
                s.drop_last()[i],
            )[j] == rest[k];
        assert(s[i] == s.drop_last()[i]);
        assert(f(s[i])[j] == gather(s, f)[k]);
    } else {
        let i = s.len() - 1;
        let j = k - rest.len();
        assert(f(s[i])[j] == gather(s, f)[k]);
    }
}

/// Where every element is kept as it is, collecting changes nothing.
pub proof fn lemma_collect_keeps_all<T>(s: Seq<T>, f: spec_fn(T) -> Option<T>)
    requires
        forall|i: int| 0 <= i < s.len() ==> f(#[trigger] s[i]) == Some(s[i]),
    ensures
        collect(s, f) == s,
    decreases s.len(),
{
    if s.len() > 0 {
        assert forall|i: int| 0 <= i < s.drop_last().len() implies f(#[trigger] s.drop_last()[i])
            == Some(s.drop_last()[i]) by {
            assert(s.drop_last()[i] == s[i]);
        }
        lemma_collect_keeps_all(s.drop_last(), f);
        assert(f(s[s.len() - 1]) == Some(s.last()));
        assert(s.drop_last().push(s.last()) =~= s);
    } else {
        assert(collect(s, f) =~= s);
    }
}

/// Whether no element occurs twice.
pub open spec fn distinct<T>(s: Seq<T>) -> bool {
    forall|i: int, j: int| 0 <= i < j < s.len() ==> #[trigger] s[i] != #[trigger] s[j]
}

/// Where no two elements of the source have the same image, nothing is collected twice.
pub proof fn lemma_collect_distinct<T, U>(s: Seq<T>, f: spec_fn(T) -> Option<U>)
    requires
        forall|i: int, j: int|
            0 <= i < j < s.len() && f(#[trigger] s[i]) is Some ==> f(s[i]) != f(#[trigger] s[j]),
    ensures
        distinct(collect(s, f)),
    decreases s.len(),
{
    if s.len() > 0 {
        let front = s.drop_last();
        let rest = collect(front, f);
        assert forall|i: int, j: int|
            0 <= i < j < front.len() && f(#[trigger] front[i]) is Some implies f(front[i]) != f(
            #[trigger] front[j],
        ) by {
            assert(front[i] == s[i] && front[j] == s[j]);
        }
        lemma_collect_distinct(front, f);
        assert forall|x: int, y: int| 0 <= x < y < collect(s, f).len() implies #[trigger] collect(
            s,
            f,
        )[x] != #[trigger] collect(s, f)[y] by {
            if y < rest.len() {
                assert(rest[x] != rest[y]);
            } else {
                lemma_collect_members(front, f, x);
                let i = choose|i: int|
                    0 <= i < front.len() && f(#[trigger] front[i]) == Some(rest[x]);
                assert(front[i] == s[i]);
                assert(f(s[i]) != f(s[s.len() - 1]));
            }
        }
    }
}

/// Where the images of the elements are free of repetitions and share nothing with one
/// another, nothing is gathered twice.
pub proof fn lemma_gather_distinct<T, U>(s: Seq<T>, f: spec_fn(T) -> Seq<U>)
    requires
        forall|i: int| 0 <= i < s.len() ==> distinct(f(#[trigger] s[i])),
        forall|i: int, j: int, a: int, b: int|
            0 <= i < j < s.len() && 0 <= a < f(s[i]).len() && 0 <= b < f(s[j]).len()
                ==> #[trigger] f(s[i])[a] != #[trigger] f(s[j])[b],
    ensures
        distinct(gather(s, f)),
    decreases s.len(),
{
    if s.len() > 0 {
        let front = s.drop_last();
        let rest = gather(front, f);
        let tail = f(s.last());
        assert forall|i: int| 0 <= i < front.len() implies distinct(f(#[trigger] front[i])) by {
            assert(front[i] == s[i]);
        }
        assert forall|i: int, j: int, a: int, b: int|
            0 <= i < j < front.len() && 0 <= a < f(front[i]).len() && 0 <= b < f(
                front[j],
            ).len() implies #[trigger] f(front[i])[a] != #[trigger] f(front[j])[b] by {
            assert(front[i] == s[i] && front[j] == s[j]);
            assert(f(s[i])[a] != f(s[j])[b]);
        }
        lemma_gather_distinct(front, f);
        assert forall|x: int, y: int| 0 <= x < y < gather(s, f).len() implies #[trigger] gather(
            s,
            f,
        )[x] != #[trigger] gather(s, f)[y] by {
            if y < rest.len() {
                assert(rest[x] != rest[y]);
            } else if x >= rest.len() {
                assert(distinct(f(s[s.len() - 1])));
                assert(tail[x - rest.len()] != tail[y - rest.len()]);
            } else {
                lemma_gather_members(front, f, x);
                let (i, a) = choose|i: int, a: int|
                    0 <= i < front.len() && 0 <= a < f(front[i]).len() && #[trigger] f(
                        front[i],
                    )[a] == rest[x];
                assert(front[i] == s[i]);
                assert(f(s[i])[a] != f(s[s.len() - 1])[y - rest.len()]);
            }
        }
    }
}

/// Whatever an element of the source is mapped to has been collected.
pub proof fn lemma_collect_covers<T, U>(s: Seq<T>, f: spec_fn(T) -> Option<U>, i: int)
    requires
        0 <= i < s.len(),
        f(s[i]) is Some,
    ensures
        collect(s, f).contains(f(s[i]).unwrap()),
    decreases s.len(),
{
    let rest = collect(s.drop_last(), f);
    if i < s.len() - 1 {
        assert(s.drop_last()[i] == s[i]);
        lemma_collect_covers(s.drop_last(), f, i);
        let k = choose|k: int| 0 <= k < rest.len() && rest[k] == f(s[i]).unwrap();
        assert(collect(s, f)[k] == f(s[i]).unwrap());
    } else {
        assert(collect(s, f)[collect(s, f).len() - 1] == f(s[i]).unwrap());
    }
}

/// Every element of the image of an element of the source has been gathered.
pub proof fn lemma_gather_covers<T, U>(s: Seq<T>, f: spec_fn(T) -> Seq<U>, i: int, j: int)
    requires
        0 <= i < s.len(),
        0 <= j < f(s[i]).len(),
    ensures
        gather(s, f).contains(f(s[i])[j]),
    decreases s.len(),
{
    let rest = gather(s.drop_last(), f);
    if i < s.len() - 1 {
        assert(s.drop_last()[i] == s[i]);
        lemma_gather_covers(s.drop_last(), f, i, j);
        let k = choose|k: int| 0 <= k < rest.len() && rest[k] == f(s[i])[j];
        assert(gather(s, f)[k] == f(s[i])[j]);
    } else {
        assert(gather(s, f)[rest.len() + j] == f(s[i])[j]);
    }
}

} // verus!
