//! Sorting by keys that are compared number by number.
use vstd::prelude::*;

use crate::ordering::{before, key_view, rank, Rank};
use crate::ordering::{lemma_before_irreflexive, lemma_before_total, lemma_before_transitive};
use crate::text::{chars_of, code_of};

verus! {

/// The characters of a text, each above zero, and a zero at the end: a text that is a beginning of
/// another comes first.
pub open spec fn text_piece(s: Seq<char>) -> Seq<int> {
    s.map_values(|c: char| c as int + 1).push(0)
}

/// An absent text comes before any other.
pub open spec fn option_piece(s: Option<Seq<char>>) -> Seq<int> {
    match s {
        Some(text) => seq![1int] + text_piece(text),
        None => seq![0int],
    }
}

/// Appends the key of a text.
pub fn push_text_piece(key: &mut Vec<u32>, s: &str)
    ensures
        key_view(final(key)@) == key_view(old(key)@) + text_piece(s@),
{
    let chars = chars_of(s);
    let ghost had = key_view(key@);
    let ghost numbers = s@.map_values(|c: char| c as int + 1);
    let mut i: usize = 0;
    assert(had + numbers.take(0) =~= had);
    while i < chars.len()
        invariant
            chars@ == s@,
            numbers == s@.map_values(|c: char| c as int + 1),
            i <= chars@.len(),
            key_view(key@) == had + numbers.take(i as int),
        decreases chars.len() - i,
    {
        let code: u32 = code_of(chars[i]);
        let ghost most = key@;
        key.push(code + 1);
        assert(key_view(key@) =~= key_view(most).push(code as int + 1));
        assert(numbers.take(i + 1) =~= numbers.take(i as int).push(code as int + 1));
        assert(had + numbers.take(i + 1) =~= (had + numbers.take(i as int)).push(code as int + 1));
        i += 1;
    }
    assert(numbers.take(numbers.len() as int) =~= numbers);
    let ghost most = key@;
    key.push(0);
    assert(key_view(key@) =~= key_view(most).push(0));
    assert(had + numbers.push(0) =~= (had + numbers).push(0));
}

/// Appends one number.
pub fn push_number(key: &mut Vec<u32>, n: u32)
    ensures
        key_view(final(key)@) == key_view(old(key)@) + seq![n as int],
{
    let ghost most = key@;
    key.push(n);
    assert(key_view(key@) =~= key_view(most) + seq![n as int]);
}

/// Appends the key of an optional text.
pub fn push_option_piece(key: &mut Vec<u32>, s: &Option<String>)
    ensures
        key_view(final(key)@) == key_view(old(key)@) + option_piece(s.deep_view()),
{
    let ghost had = key_view(key@);
    match s {
        Some(text) => {
            push_number(key, 1);
            push_text_piece(key, text.as_str());
            assert(key_view(key@) =~= had + (seq![1int] + text_piece(text@)));
        },
        None => {
            push_number(key, 0);
        },
    }
}

/// A type whose values are ordered by a key.
pub trait Keyed: DeepView {
    spec fn sort_key(v: Self::V) -> Seq<int>;

    fn key_numbers(&self) -> (r: Vec<u32>)
        ensures
            key_view(r@) == Self::sort_key(self.deep_view()),
    ;
}

impl Keyed for String {
    open spec fn sort_key(v: Seq<char>) -> Seq<int> {
        text_piece(v)
    }

    fn key_numbers(&self) -> (r: Vec<u32>) {
        let mut key: Vec<u32> = Vec::new();
        push_text_piece(&mut key, self.as_str());
        assert(key_view(key@) =~= text_piece(self@));
        key
    }
}

/// The first position at or after `from` whose key is not before that of `v`.
pub open spec fn slot_from<T: Keyed>(s: Seq<T::V>, v: T::V, from: int) -> int
    decreases s.len() - from,
{
    if from >= s.len() || !before(T::sort_key(s[from]), T::sort_key(v)) {
        from
    } else {
        slot_from::<T>(s, v, from + 1)
    }
}

/// `s` with `v` in its place.
pub open spec fn sorted_with<T: Keyed>(s: Seq<T::V>, v: T::V) -> Seq<T::V> {
    s.insert(slot_from::<T>(s, v, 0), v)
}

/// `s` with `v` in its place, unless it is there already.
pub open spec fn set_with<T: Keyed>(s: Seq<T::V>, v: T::V) -> Seq<T::V> {
    let at = slot_from::<T>(s, v, 0);
    if at < s.len() && T::sort_key(s[at]) == T::sort_key(v) {
        s
    } else {
        s.insert(at, v)
    }
}

/// The values of `s` in the order of their keys.
pub open spec fn sorted<T: Keyed>(s: Seq<T::V>) -> Seq<T::V>
    decreases s.len(),
{
    if s.len() == 0 {
        s
    } else {
        sorted_with::<T>(sorted::<T>(s.drop_last()), s.last())
    }
}

/// The values of `s` in the order of their keys, each once.
pub open spec fn sorted_set<T: Keyed>(s: Seq<T::V>) -> Seq<T::V>
    decreases s.len(),
{
    if s.len() == 0 {
        s
    } else {
        set_with::<T>(sorted_set::<T>(s.drop_last()), s.last())
    }
}

pub open spec fn keys_rise<T: Keyed>(s: Seq<T::V>) -> bool {
    forall|i: int, j: int|
        0 <= i < j < s.len() ==> before(T::sort_key(#[trigger] s[i]), T::sort_key(#[trigger] s[j]))
}

pub open spec fn keys_do_not_fall<T: Keyed>(s: Seq<T::V>) -> bool {
    forall|i: int, j: int|
        0 <= i < j < s.len() ==> !before(T::sort_key(#[trigger] s[j]), T::sort_key(#[trigger] s[i]))
}

proof fn lemma_slot_from<T: Keyed>(s: Seq<T::V>, v: T::V, from: int)
    requires
        0 <= from <= s.len(),
    ensures
        ({
            let at = slot_from::<T>(s, v, from);
            &&& from <= at <= s.len()
            &&& forall|i: int|
                from <= i < at ==> before(T::sort_key(#[trigger] s[i]), T::sort_key(v))
            &&& at < s.len() ==> !before(T::sort_key(s[at]), T::sort_key(v))
        }),
    decreases s.len() - from,
{
    if from < s.len() && before(T::sort_key(s[from]), T::sort_key(v)) {
        lemma_slot_from::<T>(s, v, from + 1);
    }
}

/// Sorting keeps every value as often as it was there and puts the keys in order.
pub proof fn law_sorted_is_an_ordered_rearrangement<T: Keyed>(s: Seq<T::V>)
    ensures
        keys_do_not_fall::<T>(sorted::<T>(s)),
        sorted::<T>(s).to_multiset() == s.to_multiset(),
    decreases s.len(),
{
    broadcast use vstd::seq_lib::group_to_multiset_ensures;

    if s.len() > 0 {
        let rest = sorted::<T>(s.drop_last());
        let v = s.last();
        law_sorted_is_an_ordered_rearrangement::<T>(s.drop_last());
        lemma_slot_from::<T>(rest, v, 0);
        let at = slot_from::<T>(rest, v, 0);
        let next = rest.insert(at, v);
        assert forall|i: int, j: int| 0 <= i < j < next.len() implies !before(
            T::sort_key(#[trigger] next[j]),
            T::sort_key(#[trigger] next[i]),
        ) by {
            if j == at {
                assert(before(T::sort_key(rest[i]), T::sort_key(v)));
                if before(T::sort_key(v), T::sort_key(rest[i])) {
                    lemma_before_transitive(
                        T::sort_key(v),
                        T::sort_key(rest[i]),
                        T::sort_key(v),
                    );
                    lemma_before_irreflexive(T::sort_key(v));
                }
            } else if i == at {
                if j - 1 > at && before(T::sort_key(rest[j - 1]), T::sort_key(v)) {
                    lemma_before_total(T::sort_key(rest[at]), T::sort_key(v));
                    assert(!before(T::sort_key(rest[j - 1]), T::sort_key(rest[at])));
                    if T::sort_key(rest[at]) != T::sort_key(v) {
                        lemma_before_transitive(
                            T::sort_key(rest[j - 1]),
                            T::sort_key(v),
                            T::sort_key(rest[at]),
                        );
                    }
                }
            } else {
                let i2 = if i < at {
                    i
                } else {
                    i - 1
                };
                let j2 = if j < at {
                    j
                } else {
                    j - 1
                };
                assert(!before(T::sort_key(rest[j2]), T::sort_key(rest[i2])));
            }
        }
        assert(next.to_multiset() == rest.to_multiset().insert(v)) by {
            vstd::seq_lib::to_multiset_insert(rest, at, v);
        }
        assert(s.to_multiset() == s.drop_last().to_multiset().insert(v)) by {
            assert(s =~= s.drop_last().push(v));
        }
    }
}

/// Whether some value of `s` has the key `k`.
pub open spec fn holds_key<T: Keyed>(s: Seq<T::V>, k: Seq<int>) -> bool {
    exists|j: int| 0 <= j < s.len() && T::sort_key(#[trigger] s[j]) == k
}

proof fn lemma_set_rises<T: Keyed>(rest: Seq<T::V>, v: T::V)
    requires
        keys_rise::<T>(rest),
    ensures
        keys_rise::<T>(set_with::<T>(rest, v)),
{
    lemma_slot_from::<T>(rest, v, 0);
    let at = slot_from::<T>(rest, v, 0);
    let next = set_with::<T>(rest, v);
    if !(at < rest.len() && T::sort_key(rest[at]) == T::sort_key(v)) {
        if at < rest.len() {
            lemma_before_total(T::sort_key(rest[at]), T::sort_key(v));
        }
        assert forall|i: int, j: int| 0 <= i < j < next.len() implies before(
            T::sort_key(#[trigger] next[i]),
            T::sort_key(#[trigger] next[j]),
        ) by {
            if i == at && j - 1 > at {
                assert(before(T::sort_key(rest[at]), T::sort_key(rest[j - 1])));
                lemma_before_transitive(
                    T::sort_key(v),
                    T::sort_key(rest[at]),
                    T::sort_key(rest[j - 1]),
                );
            } else if i != at && j != at {
                let i2 = if i < at {
                    i
                } else {
                    i - 1
                };
                let j2 = if j < at {
                    j
                } else {
                    j - 1
                };
                assert(before(T::sort_key(rest[i2]), T::sort_key(rest[j2])));
            }
        }
    }
}

proof fn lemma_set_holds<T: Keyed>(rest: Seq<T::V>, v: T::V, k: Seq<int>)
    ensures
        holds_key::<T>(set_with::<T>(rest, v), k) == (holds_key::<T>(rest, k) || T::sort_key(v)
            == k),
{
    lemma_slot_from::<T>(rest, v, 0);
    let at = slot_from::<T>(rest, v, 0);
    let next = set_with::<T>(rest, v);
    if !(at < rest.len() && T::sort_key(rest[at]) == T::sort_key(v)) {
        assert(next[at] == v);
        if holds_key::<T>(rest, k) {
            let j = choose|j: int| 0 <= j < rest.len() && T::sort_key(#[trigger] rest[j]) == k;
            let j2 = if j < at {
                j
            } else {
                j + 1
            };
            assert(next[j2] == rest[j]);
        }
        if holds_key::<T>(next, k) && T::sort_key(v) != k {
            let j = choose|j: int| 0 <= j < next.len() && T::sort_key(#[trigger] next[j]) == k;
            let j2 = if j < at {
                j
            } else {
                j - 1
            };
            assert(rest[j2] == next[j]);
        }
    }
}

/// A sorted set has strictly rising keys, and holds exactly the keys of the given values.
pub proof fn law_sorted_set_holds_each_once<T: Keyed>(s: Seq<T::V>, k: Seq<int>)
    ensures
        keys_rise::<T>(sorted_set::<T>(s)),
        holds_key::<T>(sorted_set::<T>(s), k) == holds_key::<T>(s, k),
    decreases s.len(),
{
    if s.len() > 0 {
        law_sorted_set_holds_each_once::<T>(s.drop_last(), k);
        lemma_set_rises::<T>(sorted_set::<T>(s.drop_last()), s.last());
        lemma_set_holds::<T>(sorted_set::<T>(s.drop_last()), s.last(), k);
        assert(holds_key::<T>(s, k) == (holds_key::<T>(s.drop_last(), k) || T::sort_key(s.last())
            == k)) by {
            assert(s[s.len() - 1] == s.last());
            if holds_key::<T>(s.drop_last(), k) {
                let j = choose|j: int|
                    0 <= j < s.drop_last().len() && T::sort_key(#[trigger] s.drop_last()[j]) == k;
                assert(s[j] == s.drop_last()[j]);
            }
            if holds_key::<T>(s, k) {
                let j = choose|j: int| 0 <= j < s.len() && T::sort_key(#[trigger] s[j]) == k;
                if j < s.len() - 1 {
                    assert(s[j] == s.drop_last()[j]);
                }
            }
        }
    }
}

/// Where `v` belongs among `items`.
fn slot<T: Keyed>(items: &Vec<T>, wanted: &Vec<u32>, Ghost(v): Ghost<T::V>) -> (r: usize)
    requires
        key_view(wanted@) == T::sort_key(v),
    ensures
        r == slot_from::<T>(items.deep_view(), v, 0),
        r <= items@.len(),
{
    let mut i: usize = 0;
    while i < items.len()
        invariant
            key_view(wanted@) == T::sort_key(v),
            i <= items@.len(),
            slot_from::<T>(items.deep_view(), v, 0) == slot_from::<T>(
                items.deep_view(),
                v,
                i as int,
            ),
        decreases items.len() - i,
    {
        assert(items.deep_view()[i as int] == items@[i as int].deep_view());
        match rank(&items[i].key_numbers(), wanted) {
            Rank::Before => {},
            _ => {
                return i;
            },
        }
        i += 1;
    }
    i
}

proof fn lemma_code_is_no_less_than_zero(c: char)
    ensures
        c as int >= 0,
{
}

/// A key that begins with a text tells where the text ends.
pub proof fn lemma_text_piece_splits(a: Seq<char>, b: Seq<char>, x: Seq<int>, y: Seq<int>)
    requires
        text_piece(a) + x == text_piece(b) + y,
    ensures
        a == b,
        x == y,
{
    let left = text_piece(a) + x;
    let right = text_piece(b) + y;
    assert(left[a.len() as int] == 0);
    assert(right[b.len() as int] == 0);
    if a.len() < b.len() {
        let c = b[a.len() as int];
        assert(text_piece(b)[a.len() as int] == c as int + 1);
        lemma_code_is_no_less_than_zero(c);
        assert(right[a.len() as int] > 0);
    }
    if b.len() < a.len() {
        let c = a[b.len() as int];
        assert(text_piece(a)[b.len() as int] == c as int + 1);
        lemma_code_is_no_less_than_zero(c);
        assert(left[b.len() as int] > 0);
    }
    assert forall|i: int| 0 <= i < a.len() implies a[i] == b[i] by {
        assert(left[i] == a[i] as int + 1);
        assert(right[i] == b[i] as int + 1);
    }
    assert(a =~= b);
    assert(left.skip(a.len() as int + 1) =~= x);
    assert(right.skip(b.len() as int + 1) =~= y);
}

/// A sorted set holds nothing but the given values, and for every given value one with its key.
pub proof fn law_sorted_set_adds_nothing<T: Keyed>(s: Seq<T::V>, v: T::V)
    ensures
        sorted_set::<T>(s).contains(v) ==> s.contains(v),
        s.contains(v) ==> holds_key::<T>(sorted_set::<T>(s), T::sort_key(v)),
    decreases s.len(),
{
    law_sorted_set_holds_each_once::<T>(s, T::sort_key(v));
    if s.len() > 0 {
        law_sorted_set_adds_nothing::<T>(s.drop_last(), v);
        let rest = sorted_set::<T>(s.drop_last());
        let next = sorted_set::<T>(s);
        lemma_slot_from::<T>(rest, s.last(), 0);
        let at = slot_from::<T>(rest, s.last(), 0);
        assert(s[s.len() - 1] == s.last());
        if next.contains(v) {
            let j = choose|j: int| 0 <= j < next.len() && next[j] == v;
            if next == rest {
                assert(rest.contains(v));
            } else if j < at {
                assert(rest[j] == v);
            } else if j > at {
                assert(rest[j - 1] == v);
            }
            if rest.contains(v) {
                let k = choose|k: int| 0 <= k < s.drop_last().len() && s.drop_last()[k] == v;
                assert(s[k] == v);
            }
        }
        if s.contains(v) {
            let k = choose|k: int| 0 <= k < s.len() && s[k] == v;
            assert(T::sort_key(s[k]) == T::sort_key(v));
        }
    }
}

/// The items in the order of their keys.
pub fn sort<T: Keyed>(items: Vec<T>) -> (r: Vec<T>)
    ensures
        r.deep_view() == sorted::<T>(items.deep_view()),
{
    let ghost all = items.deep_view();
    let mut result: Vec<T> = Vec::new();
    let mut rest = items;
    let mut taken: Vec<T> = Vec::new();
    while rest.len() > 0
        invariant
            taken@.len() + rest@.len() == all.len(),
            forall|i: int| 0 <= i < rest@.len() ==> (#[trigger] rest@[i]).deep_view() == all[i],
            forall|i: int|
                0 <= i < taken@.len() ==> (#[trigger] taken@[i]).deep_view() == all[all.len() - 1 - i],
        decreases rest.len(),
    {
        match rest.pop() {
            Some(item) => {
                taken.push(item);
            },
            None => {},
        }
    }
    assert(result.deep_view() =~= sorted::<T>(all.take(0)));
    while taken.len() > 0
        invariant
            taken@.len() <= all.len(),
            forall|i: int|
                0 <= i < taken@.len() ==> (#[trigger] taken@[i]).deep_view() == all[all.len() - 1 - i],
            result.deep_view() == sorted::<T>(all.take(all.len() - taken@.len())),
        decreases taken.len(),
    {
        match taken.pop() {
            Some(item) => {
                let ghost n = all.len() - taken@.len();
                let ghost v = item.deep_view();
                let ghost had = result.deep_view();
                let at = slot(&result, &item.key_numbers(), Ghost(v));
                result.insert(at, item);
                assert(result.deep_view() =~= had.insert(at as int, v));
                assert(all.take(n).drop_last() =~= all.take(n - 1));
                assert(all.take(n).last() == v);
            },
            None => {},
        }
    }
    assert(all.take(all.len() as int) =~= all);
    result
}

/// The items in the order of their keys, each once.
pub fn sort_unique<T: Keyed>(items: Vec<T>) -> (r: Vec<T>)
    ensures
        r.deep_view() == sorted_set::<T>(items.deep_view()),
{
    let ghost all = items.deep_view();
    let mut result: Vec<T> = Vec::new();
    let mut rest = items;
    let mut taken: Vec<T> = Vec::new();
    while rest.len() > 0
        invariant
            taken@.len() + rest@.len() == all.len(),
            forall|i: int| 0 <= i < rest@.len() ==> (#[trigger] rest@[i]).deep_view() == all[i],
            forall|i: int|
                0 <= i < taken@.len() ==> (#[trigger] taken@[i]).deep_view() == all[all.len() - 1 - i],
        decreases rest.len(),
    {
        match rest.pop() {
            Some(item) => {
                taken.push(item);
            },
            None => {},
        }
    }
    assert(result.deep_view() =~= sorted_set::<T>(all.take(0)));
    while taken.len() > 0
        invariant
            taken@.len() <= all.len(),
            forall|i: int|
                0 <= i < taken@.len() ==> (#[trigger] taken@[i]).deep_view() == all[all.len() - 1 - i],
            result.deep_view() == sorted_set::<T>(all.take(all.len() - taken@.len())),
        decreases taken.len(),
    {
        match taken.pop() {
            Some(item) => {
                let ghost n = all.len() - taken@.len();
                let ghost v = item.deep_view();
                let ghost had = result.deep_view();
                let wanted = item.key_numbers();
                let at = slot(&result, &wanted, Ghost(v));
                let present = if at < result.len() {
                    assert(result.deep_view()[at as int] == result@[at as int].deep_view());
                    match rank(&result[at].key_numbers(), &wanted) {
                        Rank::Same => true,
                        _ => false,
                    }
                } else {
                    false
                };
                if !present {
                    result.insert(at, item);
                    assert(result.deep_view() =~= had.insert(at as int, v));
                }
                assert(all.take(n).drop_last() =~= all.take(n - 1));
                assert(all.take(n).last() == v);
            },
            None => {},
        }
    }
    assert(all.take(all.len() as int) =~= all);
    result
}

} // verus!
