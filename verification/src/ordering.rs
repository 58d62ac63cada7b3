//! The order of texts and of paths, as the lexicographic order of their keys.
use vstd::prelude::*;

use crate::text::{begins_with, chars_of, code_of, concat, concat3, ends_with, finishes_with};
use crate::text::starts_with;

verus! {

/// How two values stand to each other.
#[derive(Debug, Clone, Copy, PartialEq, Eq, Structural)]
pub enum Rank {
    Before,
    Same,
    After,
}

/// `a` and `b` agree before position `k`, where `a` ends or has the smaller number.
pub open spec fn parts_before(a: Seq<int>, b: Seq<int>, k: int) -> bool {
    &&& 0 <= k < b.len()
    &&& k <= a.len()
    &&& forall|j: int| 0 <= j < k ==> a[j] == b[j]
    &&& k == a.len() || a[k] < b[k]
}

/// The lexicographic order.
pub open spec fn before(a: Seq<int>, b: Seq<int>) -> bool {
    exists|k: int| parts_before(a, b, k)
}

pub proof fn lemma_before_irreflexive(a: Seq<int>)
    ensures
        !before(a, a),
{
}

pub proof fn lemma_before_transitive(a: Seq<int>, b: Seq<int>, c: Seq<int>)
    requires
        before(a, b),
        before(b, c),
    ensures
        before(a, c),
{
    let i = choose|k: int| parts_before(a, b, k);
    let j = choose|k: int| parts_before(b, c, k);
    let k = if i <= j {
        i
    } else {
        j
    };
    assert(parts_before(a, c, k));
}

pub proof fn lemma_before_total(a: Seq<int>, b: Seq<int>)
    ensures
        a == b || before(a, b) || before(b, a),
{
    lemma_before_total_from(a, b, 0);
}

proof fn lemma_before_total_from(a: Seq<int>, b: Seq<int>, i: int)
    requires
        0 <= i <= a.len(),
        i <= b.len(),
        forall|j: int| 0 <= j < i ==> a[j] == b[j],
    ensures
        a == b || before(a, b) || before(b, a),
    decreases a.len() - i,
{
    if i == a.len() || i == b.len() {
        if a.len() == b.len() {
            assert(a =~= b);
        } else if i == a.len() {
            assert(parts_before(a, b, i));
        } else {
            assert(parts_before(b, a, i));
        }
    } else if a[i] < b[i] {
        assert(parts_before(a, b, i));
    } else if b[i] < a[i] {
        assert(parts_before(b, a, i));
    } else {
        lemma_before_total_from(a, b, i + 1);
    }
}

/// What orders the keys of a map.
#[derive(Debug, Clone, Copy, PartialEq, Eq, Structural)]
pub enum Order {
    /// By characters.
    Text,
    /// By path components.
    Path,
}

/// The characters of a text as numbers.
pub open spec fn text_key(s: Seq<char>) -> Seq<int> {
    s.map_values(|c: char| c as int)
}

/// The pieces of `s[from..]` between the separators `c`, where the current piece began at `start`.
pub open spec fn pieces_from(s: Seq<char>, c: char, start: int, from: int) -> Seq<Seq<char>>
    decreases s.len() - from,
{
    if from >= s.len() {
        seq![s.subrange(start, s.len() as int)]
    } else if s[from] == c {
        seq![s.subrange(start, from)] + pieces_from(s, c, from + 1, from + 1)
    } else {
        pieces_from(s, c, start, from + 1)
    }
}

/// The pieces of `s` between the separators `c`: one more than there are separators.
pub open spec fn pieces(s: Seq<char>, c: char) -> Seq<Seq<char>> {
    pieces_from(s, c, 0, 0)
}

/// The pieces of `s` between the separators `c`.
pub fn split(s: &str, c: char) -> (r: Vec<String>)
    ensures
        r.deep_view() == pieces(s@, c),
{
    let chars = chars_of(s);
    let mut result: Vec<String> = Vec::new();
    let mut start: usize = 0;
    let mut i: usize = 0;
    assert(result.deep_view() =~= Seq::<Seq<char>>::empty());
    assert(result.deep_view() + pieces_from(s@, c, 0, 0) =~= pieces(s@, c));
    while i < chars.len()
        invariant
            chars@ == s@,
            start <= i <= chars@.len(),
            result.deep_view() + pieces_from(s@, c, start as int, i as int) == pieces(s@, c),
        decreases chars.len() - i,
    {
        if chars[i] == c {
            let ghost had = result.deep_view();
            let piece = crate::text::text_between(&chars, start, i);
            let ghost text = piece@;
            result.push(piece);
            assert(result.deep_view() =~= had.push(text));
            assert(had + (seq![text] + pieces_from(s@, c, i as int + 1, i as int + 1))
                =~= result.deep_view() + pieces_from(s@, c, i as int + 1, i as int + 1));
            start = i + 1;
        }
        i += 1;
    }
    let ghost had = result.deep_view();
    let piece = crate::text::text_between(&chars, start, chars.len());
    let ghost text = piece@;
    result.push(piece);
    assert(result.deep_view() =~= had.push(text));
    assert(result.deep_view() =~= had + seq![text]);
    result
}

/// The components among `parts[..n]` of a path cut at its slashes: empty parts do not count, and a
/// dot counts only at the very beginning.
pub open spec fn kept_components(parts: Seq<Seq<char>>, n: int) -> Seq<Seq<char>>
    decreases n,
{
    if n <= 0 {
        Seq::empty()
    } else {
        let rest = kept_components(parts, n - 1);
        let part = parts[n - 1];
        if part.len() == 0 || (part == seq!['.'] && n > 1) {
            rest
        } else {
            rest.push(part)
        }
    }
}

/// Whether a path begins at the root.
pub open spec fn is_rooted(s: Seq<char>) -> bool {
    s.len() > 0 && s[0] == '/'
}

/// The components of a path below its root, if it has one.
pub open spec fn components_of(s: Seq<char>) -> Seq<Seq<char>> {
    kept_components(pieces(s, '/'), pieces(s, '/').len() as int)
}

/// The key of one component: the current and the parent directory come before any name.
pub open spec fn component_key(part: Seq<char>) -> Seq<int> {
    if part == seq!['.'] {
        seq![2int, 0]
    } else if part == seq!['.', '.'] {
        seq![3int, 0]
    } else {
        part.map_values(|c: char| c as int + 4).push(0)
    }
}

pub open spec fn components_key(parts: Seq<Seq<char>>, n: int) -> Seq<int>
    decreases n,
{
    if n <= 0 {
        Seq::empty()
    } else {
        components_key(parts, n - 1) + component_key(parts[n - 1])
    }
}

/// The key of a path: that of its components, after a mark for the root.
pub open spec fn path_key(s: Seq<char>) -> Seq<int> {
    let root = if is_rooted(s) {
        seq![1int, 0]
    } else {
        Seq::<int>::empty()
    };
    root + components_key(components_of(s), components_of(s).len() as int)
}

pub open spec fn key_of(order: Order, s: Seq<char>) -> Seq<int> {
    match order {
        Order::Text => text_key(s),
        Order::Path => path_key(s),
    }
}

/// Whether two texts name the same path.
pub open spec fn is_same_path(a: Seq<char>, b: Seq<char>) -> bool {
    path_key(a) == path_key(b)
}

pub proof fn lemma_text_key_injective(a: Seq<char>, b: Seq<char>)
    ensures
        (text_key(a) == text_key(b)) == (a == b),
{
    if text_key(a) == text_key(b) {
        assert(a.len() == text_key(a).len());
        assert forall|i: int| 0 <= i < a.len() implies a[i] == b[i] by {
            assert(text_key(a)[i] == text_key(b)[i]);
        }
        assert(a =~= b);
    }
}

/// A vector of numbers as a key.
pub open spec fn key_view(v: Seq<u32>) -> Seq<int> {
    v.map_values(|n: u32| n as int)
}

/// The components of a path below its root.
pub fn components(s: &str) -> (r: Vec<String>)
    ensures
        r.deep_view() == components_of(s@),
{
    let parts = split(s, '/');
    let mut result: Vec<String> = Vec::new();
    let mut n: usize = 0;
    assert(result.deep_view() =~= Seq::<Seq<char>>::empty());
    while n < parts.len()
        invariant
            parts.deep_view() == pieces(s@, '/'),
            n <= parts@.len(),
            result.deep_view() == kept_components(pieces(s@, '/'), n as int),
        decreases parts.len() - n,
    {
        let chars = chars_of(parts[n].as_str());
        assert(pieces(s@, '/')[n as int] == chars@);
        let dot = chars.len() == 1 && chars[0] == '.';
        assert(dot ==> chars@ =~= seq!['.']);
        if !(chars.len() == 0 || (dot && n > 0)) {
            let ghost had = result.deep_view();
            result.push(parts[n].clone());
            assert(result.deep_view() =~= had.push(chars@));
        }
        n += 1;
    }
    result
}

fn push_component_key(key: &mut Vec<u32>, part: &str)
    ensures
        key_view(final(key)@) == key_view(old(key)@) + component_key(part@),
{
    let chars = chars_of(part);
    let ghost had = key_view(key@);
    if chars.len() == 1 && chars[0] == '.' {
        assert(part@ =~= seq!['.']);
        key.push(2);
        key.push(0);
        assert(key_view(key@) =~= had + seq![2int, 0]);
        return ;
    }
    if chars.len() == 2 && chars[0] == '.' && chars[1] == '.' {
        assert(part@ =~= seq!['.', '.']);
        assert(part@.len() != seq!['.'].len());
        key.push(3);
        key.push(0);
        assert(key_view(key@) =~= had + seq![3int, 0]);
        return ;
    }
    assert(part@ != seq!['.'] && part@ != seq!['.', '.']);
    let ghost numbers = part@.map_values(|c: char| c as int + 4);
    let mut i: usize = 0;
    assert(had + numbers.take(0) =~= had);
    while i < chars.len()
        invariant
            chars@ == part@,
            numbers == part@.map_values(|c: char| c as int + 4),
            i <= chars@.len(),
            key_view(key@) == had + numbers.take(i as int),
        decreases chars.len() - i,
    {
        let code: u32 = code_of(chars[i]);
        let ghost most = key@;
        key.push(code + 4);
        assert(key_view(key@) =~= key_view(most).push(code as int + 4));
        assert(numbers.take(i + 1) =~= numbers.take(i as int).push(code as int + 4));
        assert(had + numbers.take(i + 1) =~= (had + numbers.take(i as int)).push(code as int + 4));
        i += 1;
    }
    assert(numbers.take(numbers.len() as int) =~= numbers);
    let ghost most = key@;
    key.push(0);
    assert(key_view(key@) =~= key_view(most).push(0));
    assert(had + numbers.push(0) =~= (had + numbers).push(0));
}

/// The key of a text or path.
pub fn key(order: Order, s: &str) -> (r: Vec<u32>)
    ensures
        key_view(r@) == key_of(order, s@),
{
    let mut result: Vec<u32> = Vec::new();
    let chars = chars_of(s);
    match order {
        Order::Text => {
            let mut i: usize = 0;
            assert(key_view(result@) =~= text_key(s@).take(0));
            while i < chars.len()
                invariant
                    chars@ == s@,
                    i <= chars@.len(),
                    key_view(result@) == text_key(s@).take(i as int),
                decreases chars.len() - i,
            {
                let ghost most = result@;
                let code: u32 = code_of(chars[i]);
                result.push(code);
                assert(key_view(result@) =~= key_view(most).push(code as int));
                assert(text_key(s@).take(i + 1) =~= text_key(s@).take(i as int).push(code as int));
                i += 1;
            }
            assert(text_key(s@).take(s@.len() as int) =~= text_key(s@));
        },
        Order::Path => {
            let parts = components(s);
            if chars.len() > 0 && chars[0] == '/' {
                result.push(1);
                result.push(0);
            }
            let ghost root = if is_rooted(s@) {
                seq![1int, 0]
            } else {
                Seq::<int>::empty()
            };
            assert(key_view(result@) =~= root + components_key(components_of(s@), 0));
            let mut n: usize = 0;
            while n < parts.len()
                invariant
                    parts.deep_view() == components_of(s@),
                    n <= parts@.len(),
                    key_view(result@) == root + components_key(components_of(s@), n as int),
                decreases parts.len() - n,
            {
                push_component_key(&mut result, parts[n].as_str());
                assert(components_of(s@)[n as int] == parts@[n as int]@);
                assert(key_view(result@) =~= root + components_key(components_of(s@), n + 1));
                n += 1;
            }
        },
    }
    result
}

/// How two keys stand to each other.
pub fn rank(a: &Vec<u32>, b: &Vec<u32>) -> (r: Rank)
    ensures
        match r {
            Rank::Before => before(key_view(a@), key_view(b@)),
            Rank::Same => key_view(a@) == key_view(b@),
            Rank::After => before(key_view(b@), key_view(a@)),
        },
        r is Before == before(key_view(a@), key_view(b@)),
        r is Same == (key_view(a@) == key_view(b@)),
{
    let ghost x = key_view(a@);
    let ghost y = key_view(b@);
    let mut i: usize = 0;
    while i < a.len() && i < b.len() && a[i] == b[i]
        invariant
            x == key_view(a@),
            y == key_view(b@),
            i <= a@.len(),
            i <= b@.len(),
            forall|j: int| 0 <= j < i ==> x[j] == y[j],
        decreases a.len() - i,
    {
        i += 1;
    }
    let r = if i == a.len() {
        if i == b.len() {
            assert(x =~= y);
            Rank::Same
        } else {
            assert(parts_before(x, y, i as int));
            Rank::Before
        }
    } else if i == b.len() {
        assert(parts_before(y, x, i as int));
        Rank::After
    } else if a[i] < b[i] {
        assert(x[i as int] < y[i as int]);
        assert(parts_before(x, y, i as int));
        Rank::Before
    } else {
        assert(y[i as int] < x[i as int]);
        assert(parts_before(y, x, i as int));
        Rank::After
    };
    proof {
        lemma_before_irreflexive(x);
        if before(x, y) && before(y, x) {
            lemma_before_transitive(x, y, x);
        }
    }
    r
}

/// Whether two texts name the same path.
pub fn same_path(a: &str, b: &str) -> (r: bool)
    ensures
        r == is_same_path(a@, b@),
{
    match rank(&key(Order::Path, a), &key(Order::Path, b)) {
        Rank::Same => true,
        _ => false,
    }
}


/// A path as seen from a directory.
pub open spec fn path_from(directory: Seq<char>, path: Seq<char>) -> Seq<char> {
    if begins_with(path, "/"@) || directory.len() == 0 {
        path
    } else if finishes_with(directory, "/"@) {
        directory + path
    } else {
        directory + "/"@ + path
    }
}

pub fn join_path(directory: &str, path: &str) -> (r: String)
    ensures
        r@ == path_from(directory@, path@),
{
    if starts_with(path, "/") || chars_of(directory).len() == 0 {
        path.to_owned()
    } else if ends_with(directory, "/") {
        concat(directory, path)
    } else {
        concat3(directory, "/", path)
    }
}

/// The last component of a path, if it is a name.
pub open spec fn file_name_of(path: Seq<char>) -> Option<Seq<char>> {
    let parts = components_of(path);
    if parts.len() == 0 || parts.last() == seq!['.'] || parts.last() == seq!['.', '.'] {
        None
    } else {
        Some(parts.last())
    }
}

pub fn file_name(path: &str) -> (r: Option<String>)
    ensures
        r.deep_view() == file_name_of(path@),
{
    let parts = components(path);
    if parts.len() == 0 {
        return None;
    }
    let last = &parts[parts.len() - 1];
    assert(components_of(path@).last() == last@);
    let chars = chars_of(last.as_str());
    if chars.len() == 1 && chars[0] == '.' {
        assert(last@ =~= seq!['.']);
        return None;
    }
    if chars.len() == 2 && chars[0] == '.' && chars[1] == '.' {
        assert(last@ =~= seq!['.', '.']);
        return None;
    }
    Some(last.clone())
}

/// The position of the last `c` before `upto`.
pub open spec fn last_before(s: Seq<char>, c: char, upto: int) -> Option<int>
    decreases upto,
{
    if upto <= 0 {
        None
    } else if s[upto - 1] == c {
        Some(upto - 1)
    } else {
        last_before(s, c, upto - 1)
    }
}

/// What follows the last dot of a file name that does not merely begin with it.
pub open spec fn extension_of(path: Seq<char>) -> Option<Seq<char>> {
    match file_name_of(path) {
        Some(name) => match last_before(name, '.', name.len() as int) {
            Some(at) => if at > 0 {
                Some(name.skip(at + 1))
            } else {
                None
            },
            None => None,
        },
        None => None,
    }
}

pub fn extension(path: &str) -> (r: Option<String>)
    ensures
        r.deep_view() == extension_of(path@),
{
    let name = match file_name(path) {
        Some(name) => name,
        None => {
            return None;
        },
    };
    let chars = chars_of(name.as_str());
    let mut upto: usize = chars.len();
    while upto > 0
        invariant
            chars@ == name@,
            upto <= chars@.len(),
            file_name_of(path@) == Some(name@),
            last_before(name@, '.', name@.len() as int) == last_before(name@, '.', upto as int),
        decreases upto,
    {
        if chars[upto - 1] == '.' {
            if upto - 1 > 0 {
                assert(name@.subrange(upto as int, name@.len() as int) =~= name@.skip(upto as int));
                return Some(crate::text::text_between(&chars, upto, chars.len()));
            }
            return None;
        }
        upto -= 1;
    }
    None
}

} // verus!
