//! Delta debugging: shrinking a failure-inducing list to one that cannot lose any single item.
use vstd::prelude::*;

verus! {

#[derive(Debug)]
pub struct DdminOutcome<T> {
    pub minimal: Vec<T>,
    pub tests: usize,
}

/// A clone of a `T` looks the same.
pub open spec fn clones_look_equal<T: Clone + DeepView>() -> bool {
    forall|a: T, b: T| #[trigger] cloned(a, b) ==> a.deep_view() == b.deep_view()
}

/// Every answer of `f` is the verdict of `p`.
pub open spec fn answers_as<T: DeepView, E, F: Fn(&[T]) -> Result<bool, E>>(
    f: F,
    p: spec_fn(Seq<T::V>) -> bool,
) -> bool {
    forall|s: &[T], answer: Result<bool, E>|
        #[trigger] call_ensures(f, (s,), answer) ==> (answer matches Ok(verdict) ==> verdict == p(
            s.deep_view(),
        ))
}

/// `f` may answer `s` with the error `problem`.
pub open spec fn fails_with<T, E, F: Fn(&[T]) -> Result<bool, E>>(f: F, s: &[T], problem: E) -> bool {
    call_ensures(f, (s,), Err(problem))
}

/// Whether `f` may fail with this problem on some of the items, but neither on none nor on all.
pub open spec fn fails_within<T: Clone + DeepView, E, F: Fn(&[T]) -> Result<bool, E>>(
    f: F,
    items: &[T],
    problem: E,
) -> bool {
    exists|s: &[T]|
        {
            &&& #[trigger] fails_with(f, s, problem)
            &&& 0 < s@.len() < items@.len()
            &&& clones_look_equal::<T>() ==> is_subsequence(items.deep_view(), s.deep_view())
        }
}

/// The number of parts that a list of `len` items is cut into when `parts` are asked for.
pub open spec fn part_count(len: int, parts: int) -> int {
    if len == 0 {
        0
    } else if parts < 1 {
        1
    } else if parts > len {
        len
    } else {
        parts
    }
}

/// Where part `k` of `count` begins: the first `len % count` parts are one item longer.
pub open spec fn part_start(len: int, count: int, k: int) -> int {
    k * (len / count) + if k < len % count {
        k
    } else {
        len % count
    }
}

/// The consecutive parts that `items` is cut into.
pub open spec fn parts_of<T>(items: Seq<T>, parts: int) -> Seq<Seq<T>> {
    let count = part_count(items.len() as int, parts);
    Seq::new(
        count as nat,
        |k: int|
            items.subrange(
                part_start(items.len() as int, count, k),
                part_start(items.len() as int, count, k + 1),
            ),
    )
}

/// The concatenation of `parts[..upto]` without part `omitted`.
pub open spec fn joined_except<T>(parts: Seq<Seq<T>>, omitted: int, upto: int) -> Seq<T>
    decreases upto,
{
    if upto <= 0 {
        Seq::empty()
    } else if upto - 1 == omitted {
        joined_except(parts, omitted, upto - 1)
    } else {
        joined_except(parts, omitted, upto - 1) + parts[upto - 1]
    }
}

/// All items outside part `omitted`, in order.
pub open spec fn complement_of<T>(parts: Seq<Seq<T>>, omitted: int) -> Seq<T> {
    joined_except(parts, omitted, parts.len() as int)
}

/// The first part at or after `from` that `p` accepts.
pub open spec fn first_part<T>(
    p: spec_fn(Seq<T>) -> bool,
    parts: Seq<Seq<T>>,
    from: int,
) -> Option<int>
    decreases parts.len() - from,
{
    if from >= parts.len() {
        None
    } else if p(parts[from]) {
        Some(from)
    } else {
        first_part(p, parts, from + 1)
    }
}

/// The first part at or after `from` whose complement `p` accepts.
pub open spec fn first_complement<T>(
    p: spec_fn(Seq<T>) -> bool,
    parts: Seq<Seq<T>>,
    from: int,
) -> Option<int>
    decreases parts.len() - from,
{
    if from >= parts.len() {
        None
    } else if p(complement_of(parts, from)) {
        Some(from)
    } else {
        first_complement(p, parts, from + 1)
    }
}

pub open spec fn min_of(a: int, b: int) -> int {
    if a <= b {
        a
    } else {
        b
    }
}

/// What ddmin arrives at from `current` cut into `granularity` parts, and how many subsets have
/// been tested by then.
pub open spec fn ddmin_from<T>(
    p: spec_fn(Seq<T>) -> bool,
    current: Seq<T>,
    granularity: int,
    tests: int,
) -> (Seq<T>, int)
    decreases current.len(), current.len() - granularity,
{
    let parts = parts_of(current, granularity);
    let n = parts.len() as int;
    if current.len() < 2 || granularity < 2 {
        (current, tests)
    } else if let Some(k) = first_part(p, parts, 0) {
        proof {
            lemma_first_part(p, parts, 0);
            lemma_parts(current, granularity);
        }
        ddmin_from(p, parts[k], min_of(2, parts[k].len() as int), tests + k + 1)
    } else if let Some(k) = first_complement(p, parts, 0) {
        proof {
            lemma_first_complement(p, parts, 0);
            lemma_parts(current, granularity);
            lemma_complement_len(current, granularity, k);
        }
        let rest = complement_of(parts, k);
        let next = if granularity - 1 > 2 {
            granularity - 1
        } else {
            2
        };
        ddmin_from(p, rest, min_of(next, rest.len() as int), tests + n + k + 1)
    } else if granularity >= current.len() {
        (current, tests + 2 * n)
    } else {
        ddmin_from(p, current, min_of(2 * granularity, current.len() as int), tests + 2 * n)
    }
}

/// What ddmin makes of `items`.
pub open spec fn ddmin<T>(p: spec_fn(Seq<T>) -> bool, items: Seq<T>) -> (Seq<T>, int) {
    ddmin_from(p, items, min_of(2, items.len() as int), 0)
}

/// Whether `s` cannot lose any single item and still satisfy `p`. A list of one item is not asked
/// to be emptied.
pub open spec fn one_minimal<T>(p: spec_fn(Seq<T>) -> bool, s: Seq<T>) -> bool {
    s.len() < 2 || forall|i: int| 0 <= i < s.len() ==> !p(#[trigger] s.remove(i))
}

/// Whether `s` keeps items of `whole` in their order: `s[k]` stands in `whole` at `at[k]`.
pub open spec fn picks<T>(whole: Seq<T>, s: Seq<T>, at: Seq<int>) -> bool {
    &&& at.len() == s.len()
    &&& forall|k: int| 0 <= k < at.len() ==> 0 <= #[trigger] at[k] < whole.len() && whole[at[k]] == s[k]
    &&& forall|j: int, k: int| 0 <= j < k < at.len() ==> #[trigger] at[j] < #[trigger] at[k]
}

pub open spec fn is_subsequence<T>(whole: Seq<T>, s: Seq<T>) -> bool {
    exists|at: Seq<int>| #[trigger] picks(whole, s, at)
}

pub proof fn lemma_first_part<T>(p: spec_fn(Seq<T>) -> bool, parts: Seq<Seq<T>>, from: int)
    requires
        0 <= from,
    ensures
        match first_part(p, parts, from) {
            Some(k) => from <= k < parts.len() && p(parts[k]),
            None => forall|k: int| from <= k < parts.len() ==> !p(#[trigger] parts[k]),
        },
    decreases parts.len() - from,
{
    if from < parts.len() && !p(parts[from]) {
        lemma_first_part(p, parts, from + 1);
    }
}

pub proof fn lemma_first_complement<T>(p: spec_fn(Seq<T>) -> bool, parts: Seq<Seq<T>>, from: int)
    requires
        0 <= from,
    ensures
        match first_complement(p, parts, from) {
            Some(k) => from <= k < parts.len() && p(complement_of(parts, k)),
            None => forall|k: int|
                from <= k < parts.len() ==> !p(#[trigger] complement_of(parts, k)),
        },
    decreases parts.len() - from,
{
    if from < parts.len() && !p(complement_of(parts, from)) {
        lemma_first_complement(p, parts, from + 1);
    }
}

/// The bounds of part `k`.
proof fn lemma_part_bounds(len: int, count: int, k: int)
    requires
        1 <= count <= len,
        0 <= k < count,
    ensures
        0 <= part_start(len, count, k) < part_start(len, count, k + 1) <= len,
        part_start(len, count, 0) == 0,
        part_start(len, count, count) == len,
        part_start(len, count, k + 1) - part_start(len, count, k) == len / count + if k < len % count {
            1int
        } else {
            0int
        },
{
    let base = len / count;
    let extra = len % count;
    assert(len == base * count + extra && 0 <= extra < count && base >= 1) by (nonlinear_arith)
        requires
            1 <= count <= len,
            base == len / count,
            extra == len % count,
    ;
    assert((k + 1) * base == k * base + base) by (nonlinear_arith);
    assert(k * base >= 0) by (nonlinear_arith)
        requires
            k >= 0,
            base >= 1,
    ;
    assert((k + 1) * base <= count * base) by (nonlinear_arith)
        requires
            k + 1 <= count,
            base >= 1,
    ;
    assert(count * base == base * count) by (nonlinear_arith);
    assert(0 * base == 0);
}

/// With at least two parts every part is a proper, nonempty piece.
pub proof fn lemma_parts<T>(items: Seq<T>, parts: int)
    requires
        items.len() >= 2,
        parts >= 2,
    ensures
        parts_of(items, parts).len() == min_of(parts, items.len() as int),
        forall|k: int|
            0 <= k < parts_of(items, parts).len() ==> 1 <= (#[trigger] parts_of(items, parts)[k]).len()
                < items.len(),
{
    let len = items.len() as int;
    let count = part_count(len, parts);
    assert forall|k: int| 0 <= k < count implies 1 <= (#[trigger] parts_of(items, parts)[k]).len()
        < items.len() by {
        lemma_part_bounds(len, count, k);
        if k + 1 < count {
            lemma_part_bounds(len, count, k + 1);
        } else {
            lemma_part_bounds(len, count, k - 1);
        }
    }
}

/// The parts before `upto`, without part `omitted`, are the items before part `upto` without
/// those of part `omitted`.
proof fn lemma_joined<T>(items: Seq<T>, parts: int, omitted: int, upto: int)
    requires
        items.len() >= 1,
        parts >= 1,
        0 <= omitted < parts_of(items, parts).len(),
        0 <= upto <= parts_of(items, parts).len(),
    ensures
        ({
            let count = part_count(items.len() as int, parts);
            let from = part_start(items.len() as int, count, omitted);
            let to = part_start(items.len() as int, count, omitted + 1);
            let end = part_start(items.len() as int, count, upto);
            joined_except(parts_of(items, parts), omitted, upto) == if upto <= omitted {
                items.subrange(0, end)
            } else {
                items.subrange(0, from) + items.subrange(to, end)
            }
        }),
    decreases upto,
{
    let len = items.len() as int;
    let count = part_count(len, parts);
    let all = parts_of(items, parts);
    lemma_part_bounds(len, count, omitted);
    if upto == 0 {
        assert(items.subrange(0, 0) =~= Seq::<T>::empty());
    } else {
        lemma_joined(items, parts, omitted, upto - 1);
        lemma_part_bounds(len, count, upto - 1);
        let from = part_start(len, count, omitted);
        let to = part_start(len, count, omitted + 1);
        let before = part_start(len, count, upto - 1);
        let end = part_start(len, count, upto);
        assert(all[upto - 1] == items.subrange(before, end));
        if upto - 1 == omitted {
            assert(items.subrange(0, from) + items.subrange(to, to) =~= items.subrange(0, from));
        } else if upto <= omitted {
            assert(items.subrange(0, before) + items.subrange(before, end) =~= items.subrange(0, end));
        } else {
            lemma_start_increases(len, count, omitted + 1, upto - 1);
            assert(items.subrange(0, from) + items.subrange(to, before) + items.subrange(before, end)
                =~= items.subrange(0, from) + items.subrange(to, end));
        }
    }
}

proof fn lemma_start_increases(len: int, count: int, a: int, b: int)
    requires
        1 <= count <= len,
        0 <= a <= b <= count,
    ensures
        part_start(len, count, a) <= part_start(len, count, b) <= len,
    decreases b - a,
{
    if a < b {
        lemma_start_increases(len, count, a, b - 1);
        lemma_part_bounds(len, count, b - 1);
    } else if b < count {
        lemma_part_bounds(len, count, b);
    } else {
        lemma_part_bounds(len, count, b - 1);
    }
}

/// How long a join is depends on the lengths of the parts alone.
proof fn lemma_joined_len<T>(a: Seq<Seq<T>>, b: Seq<Seq<T>>, omitted: int, upto: int)
    requires
        a.len() == b.len(),
        upto <= a.len(),
        forall|k: int| 0 <= k < a.len() ==> (#[trigger] a[k]).len() == b[k].len(),
    ensures
        joined_except(a, omitted, upto).len() == joined_except(b, omitted, upto).len(),
    decreases upto,
{
    if upto > 0 {
        lemma_joined_len(a, b, omitted, upto - 1);
        assert(a[upto - 1].len() == b[upto - 1].len());
    }
}

/// A complement is what stands before and after the omitted part.
proof fn lemma_complement<T>(items: Seq<T>, parts: int, omitted: int)
    requires
        items.len() >= 1,
        parts >= 1,
        0 <= omitted < parts_of(items, parts).len(),
    ensures
        ({
            let count = part_count(items.len() as int, parts);
            let from = part_start(items.len() as int, count, omitted);
            let to = part_start(items.len() as int, count, omitted + 1);
            &&& 0 <= from < to <= items.len()
            &&& complement_of(parts_of(items, parts), omitted) == items.subrange(0, from)
                + items.subrange(to, items.len() as int)
        }),
{
    let len = items.len() as int;
    let count = part_count(len, parts);
    lemma_joined(items, parts, omitted, count);
    lemma_part_bounds(len, count, omitted);
}

pub proof fn lemma_complement_len<T>(items: Seq<T>, parts: int, omitted: int)
    requires
        items.len() >= 2,
        parts >= 2,
        0 <= omitted < parts_of(items, parts).len(),
    ensures
        1 <= complement_of(parts_of(items, parts), omitted).len() < items.len(),
{
    lemma_complement(items, parts, omitted);
    lemma_parts(items, parts);
    assert(parts_of(items, parts)[omitted].len() < items.len());
}

/// Cutting a list loses and repeats nothing: the parts, one after the other, are the list.
pub proof fn law_parts_cover<T>(items: Seq<T>, parts: int)
    ensures
        parts_of(items, parts).flatten() == items,
{
    let all = parts_of(items, parts);
    if items.len() == 0 {
        assert(all =~= Seq::<Seq<T>>::empty());
        assert(all.flatten() =~= items);
    } else {
        let count = part_count(items.len() as int, parts);
        lemma_flatten_upto(items, parts, count);
        lemma_part_bounds(items.len() as int, count, count - 1);
        assert(all.take(count) =~= all);
        assert(items.subrange(0, items.len() as int) =~= items);
    }
}

proof fn lemma_flatten_upto<T>(items: Seq<T>, parts: int, upto: int)
    requires
        items.len() >= 1,
        0 <= upto <= parts_of(items, parts).len(),
    ensures
        parts_of(items, parts).take(upto).flatten() == items.subrange(
            0,
            part_start(items.len() as int, part_count(items.len() as int, parts), upto),
        ),
    decreases upto,
{
    let len = items.len() as int;
    let count = part_count(len, parts);
    let all = parts_of(items, parts);
    lemma_part_bounds(len, count, 0);
    if upto == 0 {
        assert(all.take(0).flatten() =~= Seq::<T>::empty());
        assert(items.subrange(0, 0) =~= Seq::<T>::empty());
    } else {
        lemma_flatten_upto(items, parts, upto - 1);
        lemma_part_bounds(len, count, upto - 1);
        assert(all.take(upto) =~= all.take(upto - 1).push(all[upto - 1]));
        all.take(upto - 1).lemma_flatten_push(all[upto - 1]);
        assert(items.subrange(0, part_start(len, count, upto - 1)) + all[upto - 1]
            =~= items.subrange(0, part_start(len, count, upto)));
    }
}


proof fn lemma_subsequence_refl<T>(s: Seq<T>)
    ensures
        is_subsequence(s, s),
{
    assert(picks(s, s, Seq::new(s.len(), |i: int| i)));
}

proof fn lemma_subsequence_trans<T>(a: Seq<T>, b: Seq<T>, c: Seq<T>)
    requires
        is_subsequence(a, b),
        is_subsequence(b, c),
    ensures
        is_subsequence(a, c),
{
    let f = choose|at: Seq<int>| #[trigger] picks(a, b, at);
    let g = choose|at: Seq<int>| #[trigger] picks(b, c, at);
    let h = Seq::new(c.len(), |i: int| f[g[i]]);
    assert forall|k: int| 0 <= k < h.len() implies 0 <= #[trigger] h[k] < a.len() && a[h[k]] == c[k] by {
        assert(0 <= g[k] < b.len());
        assert(0 <= f[g[k]] < a.len());
    }
    assert forall|j: int, k: int| 0 <= j < k < h.len() implies #[trigger] h[j] < #[trigger] h[k] by {
        assert(g[j] < g[k]);
        assert(0 <= g[j] && g[k] < b.len());
        assert(f[g[j]] < f[g[k]]);
    }
    assert(picks(a, c, h));
}

proof fn lemma_part_subsequence<T>(items: Seq<T>, parts: int, k: int)
    requires
        items.len() >= 1,
        parts >= 1,
        0 <= k < parts_of(items, parts).len(),
    ensures
        is_subsequence(items, parts_of(items, parts)[k]),
{
    let count = part_count(items.len() as int, parts);
    lemma_part_bounds(items.len() as int, count, k);
    let from = part_start(items.len() as int, count, k);
    let part = parts_of(items, parts)[k];
    assert(picks(items, part, Seq::new(part.len(), |i: int| from + i)));
}

proof fn lemma_complement_subsequence<T>(items: Seq<T>, parts: int, k: int)
    requires
        items.len() >= 1,
        parts >= 1,
        0 <= k < parts_of(items, parts).len(),
    ensures
        is_subsequence(items, complement_of(parts_of(items, parts), k)),
{
    let count = part_count(items.len() as int, parts);
    lemma_complement(items, parts, k);
    let from = part_start(items.len() as int, count, k);
    let to = part_start(items.len() as int, count, k + 1);
    let rest = complement_of(parts_of(items, parts), k);
    assert(picks(
        items,
        rest,
        Seq::new(
            rest.len(),
            |i: int|
                if i < from {
                    i
                } else {
                    i + to - from
                },
        ),
    ));
}

proof fn lemma_single_item_parts<T>(items: Seq<T>, k: int)
    requires
        items.len() >= 2,
        0 <= k < items.len(),
    ensures
        parts_of(items, items.len() as int).len() == items.len(),
        complement_of(parts_of(items, items.len() as int), k) == items.remove(k),
{
    let len = items.len() as int;
    assert(len / len == 1 && len % len == 0) by (nonlinear_arith)
        requires
            len >= 2,
    ;
    lemma_complement(items, len, k);
    assert(part_start(len, len, k) == k);
    assert(part_start(len, len, k + 1) == k + 1);
    assert(items.subrange(0, k) + items.subrange(k + 1, len) =~= items.remove(k));
}

pub proof fn lemma_ddmin_from<T>(
    p: spec_fn(Seq<T>) -> bool,
    current: Seq<T>,
    granularity: int,
    tests: int,
)
    requires
        current.len() >= 2 ==> 2 <= granularity <= current.len(),
    ensures
        ({
            let found = ddmin_from(p, current, granularity, tests);
            &&& one_minimal(p, found.0)
            &&& is_subsequence(current, found.0)
            &&& current.len() >= 1 ==> found.0.len() >= 1
            &&& p(found.0) || found.0 == current
            &&& found.1 >= tests
        }),
    decreases current.len(), current.len() - granularity,
{
    let parts = parts_of(current, granularity);
    lemma_subsequence_refl(current);
    if current.len() >= 2 {
        lemma_parts(current, granularity);
        lemma_first_part(p, parts, 0);
        lemma_first_complement(p, parts, 0);
        let found = ddmin_from(p, current, granularity, tests);
        if let Some(k) = first_part(p, parts, 0) {
            lemma_ddmin_from(p, parts[k], min_of(2, parts[k].len() as int), tests + k + 1);
            lemma_part_subsequence(current, granularity, k);
            lemma_subsequence_trans(current, parts[k], found.0);
        } else if let Some(k) = first_complement(p, parts, 0) {
            lemma_complement_len(current, granularity, k);
            let rest = complement_of(parts, k);
            let next = if granularity - 1 > 2 {
                granularity - 1
            } else {
                2
            };
            lemma_ddmin_from(
                p,
                rest,
                min_of(next, rest.len() as int),
                tests + parts.len() + k + 1,
            );
            lemma_complement_subsequence(current, granularity, k);
            lemma_subsequence_trans(current, rest, found.0);
        } else if granularity >= current.len() {
            assert forall|i: int| 0 <= i < current.len() implies !p(#[trigger] current.remove(i)) by {
                lemma_single_item_parts(current, i);
                assert(!p(complement_of(parts, i)));
            }
        } else {
            lemma_ddmin_from(
                p,
                current,
                min_of(2 * granularity, current.len() as int),
                tests + 2 * parts.len(),
            );
        }
    }
}

/// The minimised list keeps items of the given one in their order, is empty only if the given one
/// was, still satisfies the predicate if the given one did, and cannot lose any single item and
/// still satisfy it.
pub proof fn law_ddmin_is_one_minimal<T>(p: spec_fn(Seq<T>) -> bool, items: Seq<T>)
    ensures
        is_subsequence(items, ddmin(p, items).0),
        items.len() >= 1 ==> ddmin(p, items).0.len() >= 1,
        p(items) ==> p(ddmin(p, items).0),
        one_minimal(p, ddmin(p, items).0),
{
    lemma_ddmin_from(p, items, min_of(2, items.len() as int), 0);
}

/// The lists that a list of vectors holds.
pub open spec fn lists<T: DeepView>(parts: Seq<Vec<T>>) -> Seq<Seq<T::V>> {
    Seq::new(parts.len(), |k: int| parts[k].deep_view())
}

/// Copies `items[from..to]`.
fn copy_range<T: Clone>(items: &[T], from: usize, to: usize) -> (r: Vec<T>)
    requires
        from <= to <= items@.len(),
    ensures
        r@.len() == to - from,
        forall|k: int| 0 <= k < r@.len() ==> cloned(items@[from + k], #[trigger] r@[k]),
{
    let mut r: Vec<T> = Vec::new();
    let mut i: usize = from;
    while i < to
        invariant
            from <= i <= to <= items@.len(),
            r@.len() == i - from,
            forall|k: int| 0 <= k < r@.len() ==> cloned(items@[from + k], #[trigger] r@[k]),
        decreases to - i,
    {
        r.push(items[i].clone());
        i += 1;
    }
    r
}

/// Cuts `items` into `parts` consecutive pieces whose lengths differ by at most one.
pub fn partition<T: Clone + DeepView>(items: &[T], parts: usize) -> (r: Vec<Vec<T>>)
    ensures
        r@.len() == parts_of(items@, parts as int).len(),
        forall|k: int, j: int|
            0 <= k < r@.len() && 0 <= j < parts_of(items@, parts as int)[k].len() ==> cloned(
                parts_of(items@, parts as int)[k][j],
                #[trigger] r@[k]@[j],
            ),
        forall|k: int|
            0 <= k < r@.len() ==> (#[trigger] r@[k])@.len() == parts_of(
                items.deep_view(),
                parts as int,
            )[k].len(),
        clones_look_equal::<T>() ==> lists(r@) == parts_of(items.deep_view(), parts as int),
{
    let mut result: Vec<Vec<T>> = Vec::new();
    if items.len() == 0 {
        assert(lists(result@) =~= parts_of(items.deep_view(), parts as int));
        return result;
    }
    let count: usize = if parts < 1 {
        1
    } else if parts > items.len() {
        items.len()
    } else {
        parts
    };
    let len: usize = items.len();
    let base: usize = len / count;
    let remainder: usize = len % count;
    let mut start: usize = 0;
    let mut index: usize = 0;
    proof {
        lemma_part_bounds(items@.len() as int, count as int, 0);
    }
    while index < count
        invariant
            len == items@.len(),
            1 <= count <= len,
            count == part_count(items@.len() as int, parts as int),
            base == items@.len() as int / count as int,
            remainder == items@.len() as int % count as int,
            index <= count,
            start == part_start(items@.len() as int, count as int, index as int),
            result@.len() == index,
            forall|k: int, j: int|
                0 <= k < index && 0 <= j < parts_of(items@, parts as int)[k].len() ==> cloned(
                    parts_of(items@, parts as int)[k][j],
                    #[trigger] result@[k]@[j],
                ),
            forall|k: int|
                0 <= k < index ==> (#[trigger] result@[k])@.len() == parts_of(items@, parts as int)[k].len(),
        decreases count - index,
    {
        proof {
            lemma_part_bounds(items@.len() as int, count as int, index as int);
        }
        let extra: usize = if index < remainder {
            1
        } else {
            0
        };
        let end: usize = start + (base + extra);
        result.push(copy_range(items, start, end));
        start = end;
        index += 1;
    }
    proof {
        assert forall|k: int| 0 <= k < count implies (#[trigger] result@[k])@.len() == parts_of(
            items.deep_view(),
            parts as int,
        )[k].len() by {
            lemma_part_bounds(items@.len() as int, count as int, k);
        }
        if clones_look_equal::<T>() {
            assert forall|k: int| 0 <= k < count implies lists(result@)[k] == #[trigger] parts_of(
                items.deep_view(),
                parts as int,
            )[k] by {
                lemma_part_bounds(items@.len() as int, count as int, k);
                assert(result@[k].deep_view() =~= parts_of(items.deep_view(), parts as int)[k]);
            }
            assert(lists(result@) =~= parts_of(items.deep_view(), parts as int));
        }
    }
    result
}

/// All items outside partition `omitted`, in order.
pub fn complement<T: Clone + DeepView>(partitions: &[Vec<T>], omitted: usize) -> (r: Vec<T>)
    ensures
        r@.len() == complement_of(lists(partitions@), omitted as int).len(),
        clones_look_equal::<T>() ==> r.deep_view() == complement_of(
            lists(partitions@),
            omitted as int,
        ),
{
    let mut result: Vec<T> = Vec::new();
    let mut index: usize = 0;
    assert(result.deep_view() =~= Seq::<T::V>::empty());
    while index < partitions.len()
        invariant
            index <= partitions@.len(),
            result@.len() == joined_except(lists(partitions@), omitted as int, index as int).len(),
            clones_look_equal::<T>() ==> result.deep_view() == joined_except(
                lists(partitions@),
                omitted as int,
                index as int,
            ),
        decreases partitions.len() - index,
    {
        if index != omitted {
            let ghost before = result.deep_view();
            let mut part = copy_range(partitions[index].as_slice(), 0, partitions[index].len());
            let ghost added = part.deep_view();
            assert(clones_look_equal::<T>() ==> added =~= partitions@[index as int].deep_view());
            result.append(&mut part);
            assert(result.deep_view() =~= before + added);
        }
        index += 1;
    }
    result
}

/// Where a search stands: which list it narrows, into how many parts the list is cut, and which
/// part or complement of a part is asked about next.
#[verifier::ext_equal]
pub struct Search<V> {
    pub current: Seq<V>,
    pub granularity: int,
    pub complements: bool,
    pub at: int,
    /// Nothing is left to ask about.
    pub exhausted: bool,
}

/// The search of a list at its beginning.
pub open spec fn search_of<V>(items: Seq<V>) -> Search<V> {
    Search {
        current: items,
        granularity: min_of(2, items.len() as int),
        complements: false,
        at: 0,
        exhausted: false,
    }
}

pub open spec fn is_over<V>(s: Search<V>) -> bool {
    s.current.len() < 2 || s.exhausted
}

/// The list that is asked about next.
pub open spec fn asked_in<V>(s: Search<V>) -> Seq<V> {
    let parts = parts_of(s.current, s.granularity);
    if s.complements {
        complement_of(parts, s.at)
    } else {
        parts[s.at]
    }
}

/// The search after an answer. A list that reproduces the failure is narrowed further. Otherwise the
/// parts are asked about in turn, their complements after them, and finer parts after those.
pub open spec fn answered<V>(s: Search<V>, verdict: bool) -> Search<V> {
    let asked = asked_in(s);
    let finer = if s.granularity - 1 > 2 {
        s.granularity - 1
    } else {
        2
    };
    if verdict && s.complements {
        Search { granularity: min_of(finer, asked.len() as int), ..search_of(asked) }
    } else if verdict {
        search_of(asked)
    } else if s.at + 1 < parts_of(s.current, s.granularity).len() {
        Search { at: s.at + 1, ..s }
    } else if !s.complements {
        Search { complements: true, at: 0, ..s }
    } else if s.granularity >= s.current.len() {
        Search { exhausted: true, ..s }
    } else {
        Search {
            granularity: min_of(2 * s.granularity, s.current.len() as int),
            ..search_of(s.current)
        }
    }
}

/// One question and its answer.
pub struct Exchange<V, E> {
    pub asked: Seq<V>,
    pub answer: Result<bool, E>,
}

/// The search after the first `n` answers.
pub open spec fn search_after<V, E>(items: Seq<V>, log: Seq<Exchange<V, E>>, n: int) -> Search<V>
    decreases n,
{
    if n <= 0 {
        search_of(items)
    } else {
        answered(search_after(items, log, n - 1), log[n - 1].answer == Ok::<bool, E>(true))
    }
}

/// `f` may give this answer on a list that looks like this.
pub open spec fn may_answer<T: DeepView, E, F: Fn(&[T]) -> Result<bool, E>>(
    f: F,
    asked: Seq<T::V>,
    answer: Result<bool, E>,
) -> bool {
    exists|s: &[T]| s.deep_view() == asked && #[trigger] call_ensures(f, (s,), answer)
}

/// One exchange is the next of the search: the question follows from the answers before it, `f` may
/// give the answer, and nothing is asked after an error.
pub open spec fn is_next<T: DeepView, E, F: Fn(&[T]) -> Result<bool, E>>(
    f: F,
    items: Seq<T::V>,
    log: Seq<Exchange<T::V, E>>,
    k: int,
) -> bool {
    &&& !is_over(search_after(items, log, k))
    &&& log[k].asked == asked_in(search_after(items, log, k))
    &&& may_answer(f, log[k].asked, log[k].answer)
    &&& k + 1 < log.len() ==> log[k].answer is Ok
}

/// Whether a log is that of a search that asks `f`.
pub open spec fn is_log<T: DeepView, E, F: Fn(&[T]) -> Result<bool, E>>(
    f: F,
    items: Seq<T::V>,
    log: Seq<Exchange<T::V, E>>,
) -> bool {
    forall|k: int| 0 <= k < log.len() ==> #[trigger] is_next(f, items, log, k)
}

/// Whether a search that went like this gives this result: the error that ended it, or the list that
/// it arrived at and the number of its questions, as far as that can be counted.
pub open spec fn log_gives<T: DeepView, E>(
    items: Seq<T::V>,
    log: Seq<Exchange<T::V, E>>,
    r: Result<DdminOutcome<T>, E>,
) -> bool {
    match r {
        Ok(found) => {
            let end = search_after(items, log, log.len() as int);
            &&& log.len() > 0 ==> log.last().answer is Ok
            &&& is_over(end)
            &&& found.minimal.deep_view() == end.current
            &&& log.len() <= usize::MAX ==> found.tests == log.len()
        },
        Err(problem) => log.len() > 0 && log.last().answer == Err::<bool, E>(problem),
    }
}

/// What a search can be in.
pub open spec fn is_search<V>(items: Seq<V>, s: Search<V>) -> bool {
    &&& is_subsequence(items, s.current)
    &&& s.current.len() <= items.len()
    &&& items.len() >= 1 ==> s.current.len() >= 1
    &&& !is_over(s) ==> 2 <= s.granularity <= s.current.len() && 0 <= s.at < parts_of(
        s.current,
        s.granularity,
    ).len()
}

proof fn lemma_search_start<V>(items: Seq<V>)
    ensures
        is_search(items, search_of(items)),
{
    lemma_subsequence_refl(items);
    if items.len() >= 2 {
        lemma_parts(items, 2);
    }
}

proof fn lemma_asked<V>(s: Search<V>)
    requires
        !is_over(s),
        2 <= s.granularity,
        0 <= s.at < parts_of(s.current, s.granularity).len(),
    ensures
        1 <= asked_in(s).len() < s.current.len(),
        is_subsequence(s.current, asked_in(s)),
{
    lemma_parts(s.current, s.granularity);
    lemma_complement_len(s.current, s.granularity, s.at);
    lemma_part_subsequence(s.current, s.granularity, s.at);
    lemma_complement_subsequence(s.current, s.granularity, s.at);
}

proof fn lemma_search_step<V>(items: Seq<V>, s: Search<V>, verdict: bool)
    requires
        is_search(items, s),
        !is_over(s),
    ensures
        is_search(items, answered(s, verdict)),
{
    lemma_asked(s);
    lemma_parts(s.current, s.granularity);
    let next = answered(s, verdict);
    if verdict {
        lemma_subsequence_trans(items, s.current, asked_in(s));
    }
    if !is_over(next) {
        lemma_parts(next.current, next.granularity);
    }
}

proof fn lemma_search_after<V, E>(items: Seq<V>, log: Seq<Exchange<V, E>>, n: int)
    requires
        0 <= n <= log.len(),
        forall|k: int| 0 <= k < n ==> !is_over(#[trigger] search_after(items, log, k)),
    ensures
        is_search(items, search_after(items, log, n)),
    decreases n,
{
    if n == 0 {
        lemma_search_start(items);
    } else {
        lemma_search_after(items, log, n - 1);
        assert(!is_over(search_after(items, log, n - 1)));
        lemma_search_step(
            items,
            search_after(items, log, n - 1),
            log[n - 1].answer == Ok::<bool, E>(true),
        );
    }
}

proof fn lemma_prefix<V, E>(
    items: Seq<V>,
    log: Seq<Exchange<V, E>>,
    entry: Exchange<V, E>,
    n: int,
)
    requires
        0 <= n <= log.len(),
    ensures
        search_after(items, log.push(entry), n) == search_after(items, log, n),
    decreases n,
{
    if n > 0 {
        lemma_prefix(items, log, entry, n - 1);
        assert(log.push(entry)[n - 1] == log[n - 1]);
    }
}

/// A log whose answers are no errors goes on with the next question.
proof fn lemma_log_push<T: DeepView, E, F: Fn(&[T]) -> Result<bool, E>>(
    f: F,
    items: Seq<T::V>,
    log: Seq<Exchange<T::V, E>>,
    entry: Exchange<T::V, E>,
)
    requires
        is_log(f, items, log),
        forall|k: int| 0 <= k < log.len() ==> (#[trigger] log[k]).answer is Ok,
        !is_over(search_after(items, log, log.len() as int)),
        entry.asked == asked_in(search_after(items, log, log.len() as int)),
        may_answer(f, entry.asked, entry.answer),
    ensures
        is_log(f, items, log.push(entry)),
        search_after(items, log.push(entry), log.len() as int + 1) == answered(
            search_after(items, log, log.len() as int),
            entry.answer == Ok::<bool, E>(true),
        ),
{
    let more = log.push(entry);
    lemma_prefix(items, log, entry, log.len() as int);
    assert forall|k: int| 0 <= k < more.len() implies #[trigger] is_next(f, items, more, k) by {
        lemma_prefix(items, log, entry, k);
        if k < log.len() {
            assert(is_next(f, items, log, k));
            assert(more[k] == log[k]);
            assert(log[k].answer is Ok);
        }
    }
}

/// Every list that a search asks about keeps some but not all items, in their order, and a list of
/// at most one item is not asked about at all.
pub proof fn law_questions_are_proper_parts<T: DeepView, E, F: Fn(&[T]) -> Result<bool, E>>(
    f: F,
    items: Seq<T::V>,
    log: Seq<Exchange<T::V, E>>,
)
    requires
        is_log(f, items, log),
    ensures
        items.len() <= 1 ==> log.len() == 0,
        forall|k: int|
            0 <= k < log.len() ==> 1 <= (#[trigger] log[k]).asked.len() < items.len()
                && is_subsequence(items, log[k].asked),
        is_subsequence(items, search_after(items, log, log.len() as int).current),
        items.len() >= 1 ==> search_after(items, log, log.len() as int).current.len() >= 1,
{
    assert forall|k: int| 0 <= k < log.len() implies !is_over(
        #[trigger] search_after(items, log, k),
    ) by {
        assert(is_next(f, items, log, k));
    }
    if items.len() <= 1 && log.len() > 0 {
        assert(is_next(f, items, log, 0));
    }
    lemma_search_after(items, log, log.len() as int);
    assert forall|k: int| 0 <= k < log.len() implies 1 <= (#[trigger] log[k]).asked.len()
        < items.len() && is_subsequence(items, log[k].asked) by {
        lemma_search_after(items, log, k);
        let s = search_after(items, log, k);
        assert(is_next(f, items, log, k));
        lemma_asked(s);
        lemma_subsequence_trans(items, s.current, asked_in(s));
    }
}

/// What ddmin arrives at from within a round.
pub open spec fn rest_of<V>(p: spec_fn(Seq<V>) -> bool, s: Search<V>, tests: int) -> (Seq<V>, int) {
    let parts = parts_of(s.current, s.granularity);
    let n = parts.len() as int;
    let finer = if s.granularity - 1 > 2 {
        s.granularity - 1
    } else {
        2
    };
    let asked = if s.complements {
        tests - s.at
    } else {
        tests - s.at + n
    };
    if is_over(s) {
        (s.current, tests)
    } else if let (false, Some(k)) = (s.complements, first_part(p, parts, s.at)) {
        ddmin_from(p, parts[k], min_of(2, parts[k].len() as int), tests - s.at + k + 1)
    } else if let Some(k) = first_complement(
        p,
        parts,
        if s.complements {
            s.at
        } else {
            0
        },
    ) {
        let rest = complement_of(parts, k);
        ddmin_from(p, rest, min_of(finer, rest.len() as int), asked + k + 1)
    } else if s.granularity >= s.current.len() {
        (s.current, asked + n)
    } else {
        ddmin_from(
            p,
            s.current,
            min_of(2 * s.granularity, s.current.len() as int),
            asked + n,
        )
    }
}

proof fn lemma_round_start<V>(p: spec_fn(Seq<V>) -> bool, s: Search<V>, tests: int)
    requires
        !s.complements,
        s.at == 0,
        !s.exhausted,
        s.current.len() >= 2 ==> 2 <= s.granularity,
    ensures
        rest_of(p, s, tests) == ddmin_from(p, s.current, s.granularity, tests),
{
}

proof fn lemma_rest_step<V>(p: spec_fn(Seq<V>) -> bool, s: Search<V>, tests: int)
    requires
        !is_over(s),
        2 <= s.granularity <= s.current.len(),
        0 <= s.at < parts_of(s.current, s.granularity).len(),
    ensures
        rest_of(p, s, tests) == rest_of(p, answered(s, p(asked_in(s))), tests + 1),
{
    let parts = parts_of(s.current, s.granularity);
    let next = answered(s, p(asked_in(s)));
    lemma_asked(s);
    if p(asked_in(s)) {
        lemma_round_start(p, next, tests + 1);
    } else if s.at + 1 < parts.len() {
    } else if !s.complements {
        assert(first_part(p, parts, s.at + 1) is None);
    } else {
        assert(first_complement(p, parts, s.at + 1) is None);
        if s.granularity < s.current.len() {
            lemma_round_start(p, next, tests + 1);
        }
    }
}

/// Returns a 1-minimal failure-inducing sublist by the classic ddmin strategy.
///
/// The result is that of some log of the search: questions in the order of the strategy, each with an
/// answer that `reproduces_failure` may give, up to the first error. `reproduces_failure` must answer
/// the same on the same sublist: for any predicate that its answers agree with, the result is what
/// ddmin makes of `items` under that predicate.
pub fn minimize<T, E, F>(items: &[T], reproduces_failure: F) -> (r: Result<DdminOutcome<T>, E>)
    where T: Clone + DeepView, F: Fn(&[T]) -> Result<bool, E>,
    requires
        forall|s: &[T]| #[trigger] call_requires(reproduces_failure, (s,)),
    ensures
        clones_look_equal::<T>() ==> exists|log: Seq<Exchange<T::V, E>>| #[trigger]
            is_log(reproduces_failure, items.deep_view(), log) && log_gives(
                items.deep_view(),
                log,
                r,
            ),
        match r {
            Ok(found) => clones_look_equal::<T>() ==> forall|p: spec_fn(Seq<T::V>) -> bool|
                #[trigger] answers_as(reproduces_failure, p) ==> {
                    &&& found.minimal.deep_view() == ddmin(p, items.deep_view()).0
                    &&& ddmin(p, items.deep_view()).1 <= usize::MAX ==> found.tests == ddmin(
                        p,
                        items.deep_view(),
                    ).1
                },
            Err(problem) => fails_within(reproduces_failure, items, problem),
        },
        items@.len() <= 1 ==> r is Ok && r->Ok_0.tests == 0 && r->Ok_0.minimal@.len()
            == items@.len() && (clones_look_equal::<T>() ==> r->Ok_0.minimal.deep_view()
            == items.deep_view()),
        clones_look_equal::<T>() && r is Ok ==> is_subsequence(
            items.deep_view(),
            r->Ok_0.minimal.deep_view(),
        ),
{
    let mut current: Vec<T> = copy_range(items, 0, items.len());
    let mut granularity: usize = if items.len() < 2 {
        items.len()
    } else {
        2
    };
    let whole = current.as_slice();
    assert(whole.deep_view() =~= current.deep_view());
    let mut partitions = partition(whole, granularity);
    let mut complements = false;
    let mut at: usize = 0;
    let mut exhausted = false;
    let mut tests: usize = 0;
    let ghost lawful = clones_look_equal::<T>();
    let ghost all = items.deep_view();
    let ghost mut log: Seq<Exchange<T::V, E>> = Seq::empty();
    let ghost mut s: Search<T::V> = search_of(all);
    proof {
        assert(current.deep_view().len() == items@.len());
        if lawful {
            assert(current.deep_view() =~= all);
        }
        lemma_search_start(all);
        if items@.len() >= 2 {
            lemma_parts(current.deep_view(), 2);
        }
        assert forall|p: spec_fn(Seq<T::V>) -> bool| #[trigger]
            answers_as(reproduces_failure, p) implies rest_of(p, s, 0) == ddmin(p, all) by {
            lemma_round_start(p, s, 0);
        }
    }
    while current.len() >= 2 && !exhausted
        invariant
            forall|q: &[T]| #[trigger] call_requires(reproduces_failure, (q,)),
            lawful == clones_look_equal::<T>(),
            all == items.deep_view(),
            all.len() == items@.len(),
            items@.len() <= 1 ==> current@.len() == items@.len() && log.len() == 0 && tests == 0,
            current@.len() <= items@.len(),
            current@.len() >= 2 && !exhausted ==> {
                &&& 2 <= granularity <= current@.len()
                &&& at < partitions@.len()
                &&& partitions@.len() == parts_of(current.deep_view(), granularity as int).len()
                &&& forall|k: int|
                    0 <= k < partitions@.len() ==> (#[trigger] partitions@[k])@.len() == parts_of(
                        current.deep_view(),
                        granularity as int,
                    )[k].len()
                &&& lawful ==> lists(partitions@) == parts_of(
                    current.deep_view(),
                    granularity as int,
                )
            },
            log.len() <= usize::MAX ==> tests == log.len(),
            lawful ==> s == search_after(all, log, log.len() as int),
            lawful ==> s.current == current.deep_view() && s.granularity == granularity
                && s.complements == complements && s.at == at && s.exhausted == exhausted,
            lawful ==> is_search(all, s),
            lawful ==> is_log(reproduces_failure, all, log),
            lawful ==> forall|k: int| 0 <= k < log.len() ==> (#[trigger] log[k]).answer is Ok,
            lawful ==> forall|p: spec_fn(Seq<T::V>) -> bool| #[trigger]
                answers_as(reproduces_failure, p) ==> rest_of(p, s, log.len() as int) == ddmin(p, all),
        decreases
            if exhausted {
                0int
            } else {
                1int
            },
            current.len(),
            current.len() - granularity,
            if complements {
                0int
            } else {
                1int
            },
            partitions.len() - at,
    {
        let ghost parts = parts_of(current.deep_view(), granularity as int);
        proof {
            lemma_parts(current.deep_view(), granularity as int);
            lemma_joined_len(lists(partitions@), parts, at as int, parts.len() as int);
            lemma_complement_len(current.deep_view(), granularity as int, at as int);
        }
        let subset: Vec<T> = if complements {
            complement(partitions.as_slice(), at)
        } else {
            copy_range(partitions[at].as_slice(), 0, partitions[at].len())
        };
        assert(1 <= subset@.len() < current@.len());
        proof {
            if lawful {
                if !complements {
                    assert(subset.deep_view() =~= lists(partitions@)[at as int]);
                }
                assert(subset.deep_view() == asked_in(s));
                lemma_asked(s);
                lemma_subsequence_trans(all, s.current, asked_in(s));
            }
        }
        let question = subset.as_slice();
        assert(question.deep_view() =~= subset.deep_view());
        let answer = reproduces_failure(question);
        let ghost before = log;
        let ghost entry = Exchange { asked: question.deep_view(), answer };
        proof {
            log = log.push(entry);
            if lawful {
                assert(may_answer(reproduces_failure, entry.asked, entry.answer));
                lemma_log_push(reproduces_failure, all, before, entry);
                lemma_search_step(all, s, answer == Ok::<bool, E>(true));
                assert forall|p: spec_fn(Seq<T::V>) -> bool| #[trigger]
                    answers_as(reproduces_failure, p) && answer is Ok implies rest_of(
                    p,
                    answered(s, answer == Ok::<bool, E>(true)),
                    log.len() as int,
                ) == ddmin(p, all) by {
                    assert(call_ensures(reproduces_failure, (question,), answer));
                    assert(answer->Ok_0 == p(asked_in(s)));
                    lemma_rest_step(p, s, before.len() as int);
                }
                s = answered(s, answer == Ok::<bool, E>(true));
            }
        }
        tests = tests.saturating_add(1);
        let verdict = match answer {
            Ok(verdict) => verdict,
            Err(problem) => {
                assert(fails_with(reproduces_failure, question, problem));
                assert(lawful ==> log_gives::<T, E>(all, log, Err(problem)));
                return Err(problem);
            },
        };
        if verdict {
            let len: usize = subset.len();
            let finer: usize = if complements && granularity - 1 > 2 {
                granularity - 1
            } else {
                2
            };
            current = subset;
            granularity = if finer < len {
                finer
            } else {
                len
            };
            complements = false;
            at = 0;
            let whole = current.as_slice();
            assert(whole.deep_view() =~= current.deep_view());
            partitions = partition(whole, granularity);
            proof {
                if current@.len() >= 2 {
                    lemma_parts(current.deep_view(), granularity as int);
                }
            }
        } else if at < partitions.len() - 1 {
            at += 1;
        } else if !complements {
            complements = true;
            at = 0;
        } else if granularity >= current.len() {
            exhausted = true;
        } else {
            granularity = if granularity > current.len() / 2 {
                current.len()
            } else {
                granularity * 2
            };
            complements = false;
            at = 0;
            let whole = current.as_slice();
            assert(whole.deep_view() =~= current.deep_view());
            partitions = partition(whole, granularity);
            proof {
                lemma_parts(current.deep_view(), granularity as int);
            }
        }
    }
    let outcome = DdminOutcome { minimal: current, tests };
    proof {
        if lawful {
            assert(is_log(reproduces_failure, all, log));
            assert(log_gives::<T, E>(all, log, Ok(outcome)));
        }
    }
    Ok(outcome)
}

} // verus!
