//! Maps from text to text that keep their keys in order.
use vstd::prelude::*;

use crate::ordering::{before, key, key_of, rank, Order, Rank};
use crate::ordering::{lemma_before_irreflexive, lemma_before_total, lemma_before_transitive};
use crate::ordering::{lemma_text_key_injective, text_key};

verus! {

/// The entries of a map in the order of their keys.
pub type Entries = Seq<(Seq<char>, Seq<char>)>;

/// Whether the keys strictly increase, so that no two entries have the same key.
pub open spec fn increasing(order: Order, entries: Entries) -> bool {
    forall|i: int, j: int|
        0 <= i < j < entries.len() ==> before(
            key_of(order, #[trigger] entries[i].0),
            key_of(order, #[trigger] entries[j].0),
        )
}

/// The first position at or after `from` whose key is not before `k`.
pub open spec fn place_from(order: Order, entries: Entries, k: Seq<char>, from: int) -> int
    decreases entries.len() - from,
{
    if from >= entries.len() || !before(key_of(order, entries[from].0), key_of(order, k)) {
        from
    } else {
        place_from(order, entries, k, from + 1)
    }
}

/// Where `k` stands or belongs.
pub open spec fn place_of(order: Order, entries: Entries, k: Seq<char>) -> int {
    place_from(order, entries, k, 0)
}

pub open spec fn has_key(order: Order, entries: Entries, k: Seq<char>) -> bool {
    let at = place_of(order, entries, k);
    at < entries.len() && key_of(order, entries[at].0) == key_of(order, k)
}

/// The value under `k`.
pub open spec fn value_at(order: Order, entries: Entries, k: Seq<char>) -> Option<Seq<char>> {
    if has_key(order, entries, k) {
        Some(entries[place_of(order, entries, k)].1)
    } else {
        None
    }
}

/// The entries after `k` has been given the value `v`. A key that was there is kept.
pub open spec fn with_entry(order: Order, entries: Entries, k: Seq<char>, v: Seq<char>) -> Entries {
    let at = place_of(order, entries, k);
    if has_key(order, entries, k) {
        entries.update(at, (entries[at].0, v))
    } else {
        entries.insert(at, (k, v))
    }
}

/// The entries after `k` has been taken out.
pub open spec fn without_entry(order: Order, entries: Entries, k: Seq<char>) -> Entries {
    if has_key(order, entries, k) {
        entries.remove(place_of(order, entries, k))
    } else {
        entries
    }
}

pub proof fn lemma_place_from(order: Order, entries: Entries, k: Seq<char>, from: int)
    requires
        0 <= from <= entries.len(),
    ensures
        ({
            let at = place_from(order, entries, k, from);
            &&& from <= at <= entries.len()
            &&& forall|i: int|
                from <= i < at ==> before(key_of(order, #[trigger] entries[i].0), key_of(order, k))
            &&& at < entries.len() ==> !before(key_of(order, entries[at].0), key_of(order, k))
        }),
    decreases entries.len() - from,
{
    if from < entries.len() && before(key_of(order, entries[from].0), key_of(order, k)) {
        lemma_place_from(order, entries, k, from + 1);
    }
}

/// Everything from the place of `k` on comes after `k`, but for `k` itself.
pub proof fn lemma_place(order: Order, entries: Entries, k: Seq<char>)
    requires
        increasing(order, entries),
    ensures
        ({
            let at = place_of(order, entries, k);
            &&& 0 <= at <= entries.len()
            &&& forall|i: int|
                0 <= i < at ==> before(key_of(order, #[trigger] entries[i].0), key_of(order, k))
            &&& forall|i: int|
                at < i < entries.len() ==> before(key_of(order, k), key_of(order, #[trigger] entries[i].0))
            &&& at < entries.len() && !has_key(order, entries, k) ==> before(
                key_of(order, k),
                key_of(order, entries[at].0),
            )
        }),
{
    lemma_place_from(order, entries, k, 0);
    let at = place_of(order, entries, k);
    if at < entries.len() {
        lemma_before_total(key_of(order, entries[at].0), key_of(order, k));
        assert forall|i: int| at < i < entries.len() implies before(
            key_of(order, k),
            key_of(order, #[trigger] entries[i].0),
        ) by {
            assert(before(key_of(order, entries[at].0), key_of(order, entries[i].0)));
            if key_of(order, entries[at].0) != key_of(order, k) {
                lemma_before_transitive(
                    key_of(order, k),
                    key_of(order, entries[at].0),
                    key_of(order, entries[i].0),
                );
            }
        }
    }
}

/// An entry is found under its key.
pub proof fn lemma_found(order: Order, entries: Entries, i: int, k: Seq<char>)
    requires
        increasing(order, entries),
        0 <= i < entries.len(),
        key_of(order, entries[i].0) == key_of(order, k),
    ensures
        has_key(order, entries, k),
        place_of(order, entries, k) == i,
        value_at(order, entries, k) == Some(entries[i].1),
{
    lemma_place(order, entries, k);
    lemma_before_irreflexive(key_of(order, k));
}

pub proof fn lemma_with_entry(order: Order, entries: Entries, k: Seq<char>, v: Seq<char>)
    requires
        increasing(order, entries),
    ensures
        increasing(order, with_entry(order, entries, k, v)),
        value_at(order, with_entry(order, entries, k, v), k) == Some(v),
        forall|other: Seq<char>|
            key_of(order, other) != key_of(order, k) ==> #[trigger] value_at(
                order,
                with_entry(order, entries, k, v),
                other,
            ) == value_at(order, entries, other),
{
    let at = place_of(order, entries, k);
    let next = with_entry(order, entries, k, v);
    lemma_place(order, entries, k);
    assert forall|i: int, j: int| 0 <= i < j < next.len() implies before(
        key_of(order, #[trigger] next[i].0),
        key_of(order, #[trigger] next[j].0),
    ) by {
        if !has_key(order, entries, k) {
            if i < at && j > at {
                assert(before(key_of(order, entries[i].0), key_of(order, entries[j - 1].0)));
            } else if i == at {
                let later = entries[j - 1];
                assert(j - 1 == at || before(key_of(order, k), key_of(order, later.0)));
            } else if i > at {
                assert(before(key_of(order, entries[i - 1].0), key_of(order, entries[j - 1].0)));
            } else if j < at {
                assert(before(key_of(order, entries[i].0), key_of(order, entries[j].0)));
            }
        } else {
            assert(before(key_of(order, entries[i].0), key_of(order, entries[j].0)));
        }
    }
    lemma_found(order, next, at, k);
    assert forall|other: Seq<char>| key_of(order, other) != key_of(order, k) implies #[trigger] value_at(
        order,
        next,
        other,
    ) == value_at(order, entries, other) by {
        if has_key(order, entries, other) {
            let p = place_of(order, entries, other);
            lemma_place(order, entries, other);
            let q = if has_key(order, entries, k) || p < at {
                p
            } else {
                p + 1
            };
            assert(next[q] == entries[p]);
            lemma_found(order, next, q, other);
        } else if has_key(order, next, other) {
            let q = place_of(order, next, other);
            lemma_place(order, next, other);
            assert(q != at);
            let p = if has_key(order, entries, k) || q < at {
                q
            } else {
                q - 1
            };
            assert(next[q] == entries[p]);
            lemma_found(order, entries, p, other);
        }
    }
}

pub proof fn lemma_without_entry(order: Order, entries: Entries, k: Seq<char>)
    requires
        increasing(order, entries),
    ensures
        increasing(order, without_entry(order, entries, k)),
        value_at(order, without_entry(order, entries, k), k) is None,
        forall|other: Seq<char>|
            key_of(order, other) != key_of(order, k) ==> #[trigger] value_at(
                order,
                without_entry(order, entries, k),
                other,
            ) == value_at(order, entries, other),
{
    let at = place_of(order, entries, k);
    let next = without_entry(order, entries, k);
    lemma_place(order, entries, k);
    if has_key(order, entries, k) {
        assert forall|i: int, j: int| 0 <= i < j < next.len() implies before(
            key_of(order, #[trigger] next[i].0),
            key_of(order, #[trigger] next[j].0),
        ) by {
            let i2 = if i < at {
                i
            } else {
                i + 1
            };
            let j2 = if j < at {
                j
            } else {
                j + 1
            };
            assert(before(key_of(order, entries[i2].0), key_of(order, entries[j2].0)));
        }
        if has_key(order, next, k) {
            let q = place_of(order, next, k);
            lemma_place(order, next, k);
            let p = if q < at {
                q
            } else {
                q + 1
            };
            assert(next[q] == entries[p]);
            lemma_found(order, entries, p, k);
        }
        assert forall|other: Seq<char>| key_of(order, other) != key_of(order, k) implies #[trigger] value_at(
            order,
            next,
            other,
        ) == value_at(order, entries, other) by {
            if has_key(order, entries, other) {
                let p = place_of(order, entries, other);
                lemma_place(order, entries, other);
                let q = if p < at {
                    p
                } else {
                    p - 1
                };
                assert(next[q] == entries[p]);
                lemma_found(order, next, q, other);
            } else if has_key(order, next, other) {
                let q = place_of(order, next, other);
                lemma_place(order, next, other);
                let p = if q < at {
                    q
                } else {
                    q + 1
                };
                assert(next[q] == entries[p]);
                lemma_found(order, entries, p, other);
            }
        }
    }
}

/// Two maps ordered by text that give every key the same value are the same.
pub proof fn lemma_same_values(a: Entries, b: Entries)
    requires
        increasing(Order::Text, a),
        increasing(Order::Text, b),
        forall|k: Seq<char>|
            #[trigger] value_at(Order::Text, a, k) == value_at(Order::Text, b, k),
    ensures
        a == b,
    decreases a.len(),
{
    if a.len() == 0 {
        if b.len() > 0 {
            lemma_found(Order::Text, b, 0, b[0].0);
            assert(value_at(Order::Text, a, b[0].0) is None);
        }
        assert(a =~= b);
    } else {
        let k = a.last().0;
        lemma_found(Order::Text, a, a.len() - 1, k);
        assert(value_at(Order::Text, b, k) == Some(a.last().1));
        let p = place_of(Order::Text, b, k);
        lemma_place(Order::Text, b, k);
        lemma_text_key_injective(b[p].0, k);
        if p < b.len() - 1 {
            let z = b.last().0;
            lemma_found(Order::Text, b, b.len() - 1, z);
            assert(value_at(Order::Text, a, z) is Some);
            let q = place_of(Order::Text, a, z);
            lemma_place(Order::Text, a, z);
            lemma_text_key_injective(a[q].0, z);
            assert(before(text_key(b[p].0), text_key(b[b.len() - 1].0)));
            if q < a.len() - 1 {
                assert(before(text_key(a[q].0), text_key(a[a.len() - 1].0)));
                lemma_before_transitive(text_key(k), text_key(z), text_key(k));
            }
            lemma_before_irreflexive(text_key(k));
            assert(false);
        }
        let a2 = a.drop_last();
        let b2 = b.drop_last();
        assert forall|x: Seq<char>| #[trigger] value_at(Order::Text, a2, x) == value_at(
            Order::Text,
            b2,
            x,
        ) by {
            lemma_drop_last(a, x);
            lemma_drop_last(b, x);
            assert(value_at(Order::Text, a, x) == value_at(Order::Text, b, x));
        }
        assert(increasing(Order::Text, a2));
        assert(increasing(Order::Text, b2));
        lemma_same_values(a2, b2);
        assert(a =~= a2.push(a.last()));
        assert(b =~= b2.push(b.last()));
        assert(a.last() == b.last());
    }
}

proof fn lemma_drop_last(a: Entries, x: Seq<char>)
    requires
        a.len() > 0,
        increasing(Order::Text, a),
    ensures
        value_at(Order::Text, a.drop_last(), x) == if x == a.last().0 {
            None
        } else {
            value_at(Order::Text, a, x)
        },
{
    let a2 = a.drop_last();
    assert(increasing(Order::Text, a2));
    lemma_text_key_injective(x, a.last().0);
    if has_key(Order::Text, a2, x) {
        let p = place_of(Order::Text, a2, x);
        lemma_place(Order::Text, a2, x);
        assert(a[p] == a2[p]);
        lemma_found(Order::Text, a, p, x);
        assert(before(text_key(a[p].0), text_key(a.last().0)));
        lemma_before_irreflexive(text_key(x));
    } else if has_key(Order::Text, a, x) && x != a.last().0 {
        let p = place_of(Order::Text, a, x);
        lemma_place(Order::Text, a, x);
        assert(a2[p] == a[p]);
        lemma_found(Order::Text, a2, p, x);
    }
}

/// Where `k` stands or belongs.
fn place(order: Order, entries: &Vec<(String, String)>, k: &str) -> (r: usize)
    ensures
        r == place_of(order, entries.deep_view(), k@),
        r <= entries@.len(),
{
    let wanted = key(order, k);
    let mut i: usize = 0;
    while i < entries.len()
        invariant
            crate::ordering::key_view(wanted@) == key_of(order, k@),
            i <= entries@.len(),
            place_of(order, entries.deep_view(), k@) == place_from(
                order,
                entries.deep_view(),
                k@,
                i as int,
            ),
        decreases entries.len() - i,
    {
        assert(entries.deep_view()[i as int].0 == entries@[i as int].0@);
        let own = key(order, entries[i].0.as_str());
        match rank(&own, &wanted) {
            Rank::Before => {},
            _ => {
                return i;
            },
        }
        i += 1;
    }
    i
}

fn stands(order: Order, entries: &Vec<(String, String)>, k: &str, at: usize) -> (r: bool)
    ensures
        r == (at < entries@.len() && key_of(order, entries.deep_view()[at as int].0) == key_of(
            order,
            k@,
        )),
{
    if at >= entries.len() {
        return false;
    }
    assert(entries.deep_view()[at as int].0 == entries@[at as int].0@);
    match rank(&key(order, entries[at].0.as_str()), &key(order, k)) {
        Rank::Same => true,
        _ => false,
    }
}

fn lookup<'a>(order: Order, entries: &'a Vec<(String, String)>, k: &str) -> (r: Option<&'a String>)
    ensures
        match r {
            Some(v) => value_at(order, entries.deep_view(), k@) == Some(v@),
            None => value_at(order, entries.deep_view(), k@) is None,
        },
{
    let at = place(order, entries, k);
    if stands(order, entries, k, at) {
        assert(entries.deep_view()[at as int].1 == entries@[at as int].1@);
        Some(&entries[at].1)
    } else {
        None
    }
}

fn put(order: Order, entries: &mut Vec<(String, String)>, k: String, v: String)
    ensures
        final(entries).deep_view() == with_entry(order, old(entries).deep_view(), k@, v@),
{
    let ghost had = entries.deep_view();
    let at = place(order, entries, k.as_str());
    if stands(order, entries, k.as_str(), at) {
        let kept = entries[at].0.clone();
        entries.set(at, (kept, v));
        assert(entries.deep_view() =~= with_entry(order, had, k@, v@));
    } else {
        let ghost entry = (k@, v@);
        entries.insert(at, (k, v));
        assert(entries.deep_view() =~= had.insert(at as int, entry));
    }
}

fn take_out(order: Order, entries: &mut Vec<(String, String)>, k: &str)
    ensures
        final(entries).deep_view() == without_entry(order, old(entries).deep_view(), k@),
{
    let ghost had = entries.deep_view();
    let at = place(order, entries, k);
    if stands(order, entries, k, at) {
        entries.remove(at);
        assert(entries.deep_view() =~= had.remove(at as int));
    }
}

fn copy_entries(entries: &Vec<(String, String)>) -> (r: Vec<(String, String)>)
    ensures
        r.deep_view() == entries.deep_view(),
{
    let mut r: Vec<(String, String)> = Vec::new();
    let mut i: usize = 0;
    while i < entries.len()
        invariant
            i <= entries@.len(),
            r@.len() == i,
            forall|k: int|
                0 <= k < i ==> (#[trigger] r@[k]).0@ == entries@[k].0@ && r@[k].1@ == entries@[k].1@,
        decreases entries.len() - i,
    {
        r.push((entries[i].0.clone(), entries[i].1.clone()));
        i += 1;
    }
    assert(r.deep_view() =~= entries.deep_view());
    r
}

/// Whether two lists of entries are equal.
pub fn same_entries(a: &Vec<(String, String)>, b: &Vec<(String, String)>) -> (r: bool)
    ensures
        r == (a.deep_view() == b.deep_view()),
{
    if a.len() != b.len() {
        assert(a.deep_view().len() != b.deep_view().len());
        return false;
    }
    let mut i: usize = 0;
    while i < a.len()
        invariant
            a.len() == b.len(),
            i <= a.len(),
            forall|k: int| 0 <= k < i ==> a.deep_view()[k] == b.deep_view()[k],
        decreases a.len() - i,
    {
        if a[i].0 != b[i].0 || a[i].1 != b[i].1 {
            assert(a.deep_view()[i as int] != b.deep_view()[i as int]);
            return false;
        }
        i += 1;
    }
    assert(a.deep_view() =~= b.deep_view());
    true
}

/// A map from text to text in the order of the characters of the keys.
#[derive(Debug, PartialEq)]
pub struct StringMap {
    entries: Vec<(String, String)>,
}

impl DeepView for StringMap {
    type V = Entries;

    closed spec fn deep_view(&self) -> Entries {
        self.entries.deep_view()
    }
}

impl StringMap {
    #[verifier::type_invariant]
    spec fn ordered(self) -> bool {
        increasing(Order::Text, self.entries.deep_view())
    }

    pub fn new() -> (r: StringMap)
        ensures
            r.deep_view() == Seq::<(Seq<char>, Seq<char>)>::empty(),
    {
        let entries: Vec<(String, String)> = Vec::new();
        assert(entries.deep_view() =~= Seq::<(Seq<char>, Seq<char>)>::empty());
        StringMap { entries }
    }

    /// The keys are in order.
    pub fn entries(&self) -> (r: &Vec<(String, String)>)
        ensures
            r.deep_view() == self.deep_view(),
            increasing(Order::Text, self.deep_view()),
    {
        proof {
            use_type_invariant(self);
        }
        &self.entries
    }

    pub fn get(&self, k: &str) -> (r: Option<&String>)
        ensures
            match r {
                Some(v) => value_at(Order::Text, self.deep_view(), k@) == Some(v@),
                None => value_at(Order::Text, self.deep_view(), k@) is None,
            },
    {
        lookup(Order::Text, &self.entries, k)
    }

    pub fn insert(&mut self, k: String, v: String)
        ensures
            final(self).deep_view() == with_entry(Order::Text, old(self).deep_view(), k@, v@),
    {
        proof {
            use_type_invariant(&*self);
            lemma_with_entry(Order::Text, self.entries.deep_view(), k@, v@);
        }
        let mut entries: Vec<(String, String)> = Vec::new();
        core::mem::swap(&mut entries, &mut self.entries);
        put(Order::Text, &mut entries, k, v);
        self.entries = entries;
    }

    pub fn remove(&mut self, k: &str)
        ensures
            final(self).deep_view() == without_entry(Order::Text, old(self).deep_view(), k@),
    {
        proof {
            use_type_invariant(&*self);
            lemma_without_entry(Order::Text, self.entries.deep_view(), k@);
        }
        let mut entries: Vec<(String, String)> = Vec::new();
        core::mem::swap(&mut entries, &mut self.entries);
        take_out(Order::Text, &mut entries, k);
        self.entries = entries;
    }

    pub fn len(&self) -> (r: usize)
        ensures
            r == self.deep_view().len(),
    {
        self.entries.len()
    }
}

impl Clone for StringMap {
    fn clone(&self) -> (r: StringMap)
        ensures
            r.deep_view() == self.deep_view(),
    {
        proof {
            use_type_invariant(self);
        }
        StringMap { entries: copy_entries(&self.entries) }
    }
}

/// A map from paths to paths in the order of the components of the keys.
#[derive(Debug, PartialEq)]
pub struct PathMap {
    entries: Vec<(String, String)>,
}

impl DeepView for PathMap {
    type V = Entries;

    closed spec fn deep_view(&self) -> Entries {
        self.entries.deep_view()
    }
}

impl PathMap {
    #[verifier::type_invariant]
    spec fn ordered(self) -> bool {
        increasing(Order::Path, self.entries.deep_view())
    }

    pub fn new() -> (r: PathMap)
        ensures
            r.deep_view() == Seq::<(Seq<char>, Seq<char>)>::empty(),
    {
        let entries: Vec<(String, String)> = Vec::new();
        assert(entries.deep_view() =~= Seq::<(Seq<char>, Seq<char>)>::empty());
        PathMap { entries }
    }

    /// The keys are in order.
    pub fn entries(&self) -> (r: &Vec<(String, String)>)
        ensures
            r.deep_view() == self.deep_view(),
            increasing(Order::Path, self.deep_view()),
    {
        proof {
            use_type_invariant(self);
        }
        &self.entries
    }

    pub fn get(&self, k: &str) -> (r: Option<&String>)
        ensures
            match r {
                Some(v) => value_at(Order::Path, self.deep_view(), k@) == Some(v@),
                None => value_at(Order::Path, self.deep_view(), k@) is None,
            },
    {
        lookup(Order::Path, &self.entries, k)
    }

    pub fn insert(&mut self, k: String, v: String)
        ensures
            final(self).deep_view() == with_entry(Order::Path, old(self).deep_view(), k@, v@),
    {
        proof {
            use_type_invariant(&*self);
            lemma_with_entry(Order::Path, self.entries.deep_view(), k@, v@);
        }
        let mut entries: Vec<(String, String)> = Vec::new();
        core::mem::swap(&mut entries, &mut self.entries);
        put(Order::Path, &mut entries, k, v);
        self.entries = entries;
    }

    pub fn remove(&mut self, k: &str)
        ensures
            final(self).deep_view() == without_entry(Order::Path, old(self).deep_view(), k@),
    {
        proof {
            use_type_invariant(&*self);
            lemma_without_entry(Order::Path, self.entries.deep_view(), k@);
        }
        let mut entries: Vec<(String, String)> = Vec::new();
        core::mem::swap(&mut entries, &mut self.entries);
        take_out(Order::Path, &mut entries, k);
        self.entries = entries;
    }

    pub fn len(&self) -> (r: usize)
        ensures
            r == self.deep_view().len(),
    {
        self.entries.len()
    }
}

impl Clone for PathMap {
    fn clone(&self) -> (r: PathMap)
        ensures
            r.deep_view() == self.deep_view(),
    {
        proof {
            use_type_invariant(self);
        }
        PathMap { entries: copy_entries(&self.entries) }
    }
}


/// The entries of a map to lists, in the order of their keys.
pub type ListEntries = Seq<(Seq<char>, Seq<Seq<char>>)>;

/// The keys of a map to lists.
pub open spec fn list_keys(entries: ListEntries) -> Seq<Seq<char>> {
    Seq::new(entries.len(), |i: int| entries[i].0)
}

/// Whether the keys strictly increase.
pub open spec fn keys_increase(keys: Seq<Seq<char>>) -> bool {
    forall|i: int, j: int|
        0 <= i < j < keys.len() ==> before(text_key(#[trigger] keys[i]), text_key(#[trigger] keys[j]))
}

/// The first position at or after `from` whose key is not before `k`.
pub open spec fn key_place_from(keys: Seq<Seq<char>>, k: Seq<char>, from: int) -> int
    decreases keys.len() - from,
{
    if from >= keys.len() || !before(text_key(keys[from]), text_key(k)) {
        from
    } else {
        key_place_from(keys, k, from + 1)
    }
}

/// The entries after `k` has been given the list `v`.
pub open spec fn with_list(entries: ListEntries, k: Seq<char>, v: Seq<Seq<char>>) -> ListEntries {
    let at = key_place_from(list_keys(entries), k, 0);
    if at < entries.len() && entries[at].0 == k {
        entries.update(at, (k, v))
    } else {
        entries.insert(at, (k, v))
    }
}

pub open spec fn lists_key(entries: ListEntries, k: Seq<char>) -> bool {
    exists|i: int| 0 <= i < entries.len() && (#[trigger] entries[i]).0 == k
}

proof fn lemma_key_place_from(keys: Seq<Seq<char>>, k: Seq<char>, from: int)
    requires
        0 <= from <= keys.len(),
    ensures
        ({
            let at = key_place_from(keys, k, from);
            &&& from <= at <= keys.len()
            &&& forall|i: int| from <= i < at ==> before(text_key(#[trigger] keys[i]), text_key(k))
            &&& at < keys.len() ==> !before(text_key(keys[at]), text_key(k))
        }),
    decreases keys.len() - from,
{
    if from < keys.len() && before(text_key(keys[from]), text_key(k)) {
        lemma_key_place_from(keys, k, from + 1);
    }
}

proof fn lemma_with_list(entries: ListEntries, k: Seq<char>, v: Seq<Seq<char>>)
    requires
        keys_increase(list_keys(entries)),
    ensures
        keys_increase(list_keys(with_list(entries, k, v))),
        0 <= key_place_from(list_keys(entries), k, 0) <= entries.len(),
{
    let keys = list_keys(entries);
    let at = key_place_from(keys, k, 0);
    lemma_key_place_from(keys, k, 0);
    let next = list_keys(with_list(entries, k, v));
    if at < entries.len() && entries[at].0 == k {
        assert(next =~= keys);
    } else {
        assert(next =~= keys.insert(at, k));
        assert forall|i: int, j: int| 0 <= i < j < next.len() implies before(
            text_key(#[trigger] next[i]),
            text_key(#[trigger] next[j]),
        ) by {
            if i == at {
                lemma_before_total(text_key(keys[at]), text_key(k));
                lemma_text_key_injective(keys[at], k);
                if j - 1 > at {
                    assert(before(text_key(keys[at]), text_key(keys[j - 1])));
                    lemma_before_transitive(text_key(k), text_key(keys[at]), text_key(keys[j - 1]));
                }
            } else if j == at {
                assert(before(text_key(keys[i]), text_key(k)));
            } else {
                let i2 = if i < at {
                    i
                } else {
                    i - 1
                };
                let j2 = if j < at {
                    j
                } else {
                    j - 1
                };
                assert(before(text_key(keys[i2]), text_key(keys[j2])));
            }
        }
    }
}

/// A map from text to lists of texts in the order of the characters of the keys.
#[derive(Debug, PartialEq)]
pub struct ListMap {
    entries: Vec<(String, Vec<String>)>,
}

impl DeepView for ListMap {
    type V = ListEntries;

    closed spec fn deep_view(&self) -> ListEntries {
        self.entries.deep_view()
    }
}

impl ListMap {
    #[verifier::type_invariant]
    spec fn ordered(self) -> bool {
        keys_increase(list_keys(self.entries.deep_view()))
    }

    pub fn new() -> (r: ListMap)
        ensures
            r.deep_view() == Seq::<(Seq<char>, Seq<Seq<char>>)>::empty(),
    {
        let entries: Vec<(String, Vec<String>)> = Vec::new();
        assert(entries.deep_view() =~= Seq::<(Seq<char>, Seq<Seq<char>>)>::empty());
        ListMap { entries }
    }

    /// The keys are in order.
    pub fn entries(&self) -> (r: &Vec<(String, Vec<String>)>)
        ensures
            r.deep_view() == self.deep_view(),
            keys_increase(list_keys(self.deep_view())),
    {
        proof {
            use_type_invariant(self);
        }
        &self.entries
    }

    pub fn insert(&mut self, k: String, v: Vec<String>)
        ensures
            final(self).deep_view() == with_list(old(self).deep_view(), k@, v.deep_view()),
    {
        let ghost had = self.entries.deep_view();
        let ghost text = k@;
        let ghost list = v.deep_view();
        proof {
            use_type_invariant(&*self);
            lemma_with_list(had, text, list);
        }
        let wanted = key(Order::Text, k.as_str());
        let mut entries: Vec<(String, Vec<String>)> = Vec::new();
        core::mem::swap(&mut entries, &mut self.entries);
        let mut at: usize = 0;
        let mut searching = true;
        while searching && at < entries.len()
            invariant
                entries.deep_view() == had,
                text == k@,
                crate::ordering::key_view(wanted@) == text_key(text),
                at <= entries@.len(),
                searching ==> key_place_from(list_keys(had), text, 0) == key_place_from(
                    list_keys(had),
                    text,
                    at as int,
                ),
                !searching ==> at < entries@.len() && key_place_from(list_keys(had), text, 0) == at,
            decreases entries.len() - at + if searching {
                1int
            } else {
                0int
            },
        {
            assert(had[at as int].0 == entries@[at as int].0@);
            assert(list_keys(had)[at as int] == had[at as int].0);
            match rank(&key(Order::Text, entries[at].0.as_str()), &wanted) {
                Rank::Before => {
                    at += 1;
                },
                _ => {
                    searching = false;
                },
            }
        }
        if at < entries.len() && entries[at].0 == k {
            entries.set(at, (k, v));
            assert(entries.deep_view() =~= with_list(had, text, list));
        } else {
            entries.insert(at, (k, v));
            assert(entries.deep_view() =~= with_list(had, text, list));
        }
        self.entries = entries;
    }

    pub fn contains_key(&self, k: &str) -> (r: bool)
        ensures
            r == lists_key(self.deep_view(), k@),
    {
        let mut i: usize = 0;
        while i < self.entries.len()
            invariant
                i <= self.entries@.len(),
                forall|j: int| 0 <= j < i ==> (#[trigger] self.deep_view()[j]).0 != k@,
            decreases self.entries.len() - i,
        {
            assert(self.deep_view()[i as int].0 == self.entries@[i as int].0@);
            if *self.entries[i].0.as_str() == *k {
                return true;
            }
            i += 1;
        }
        false
    }
}

} // verus!
