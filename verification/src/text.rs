//! Text as sequences of characters: comparison, search, splitting and trimming.
use vstd::prelude::*;
use vstd::utf8::{decode_utf8, valid_utf8};

verus! {

/// `String::push` appends one character.
pub assume_specification[ String::push ](s: &mut String, c: char)
    ensures
        final(s)@ == old(s)@.push(c),
;

/// `String::push_str` appends a string slice.
pub assume_specification[ String::push_str ](s: &mut String, other: &str)
    ensures
        final(s)@ == old(s)@ + other@,
;

/// `==` on `str` compares the characters.
pub assume_specification[ <str as PartialEq>::eq ](s: &str, other: &str) -> (equal: bool)
    ensures
        equal == (s@ == other@),
;

/// `char::is_whitespace` holds of exactly the characters with the Unicode `White_Space` property.
pub assume_specification[ char::is_whitespace ](c: char) -> (white: bool)
    ensures
        white == is_white(c),
;

/// The characters with the Unicode `White_Space` property.
pub open spec fn is_white(c: char) -> bool {
    ||| '\u{9}' <= c <= '\u{d}'
    ||| c == '\u{20}'
    ||| c == '\u{85}'
    ||| c == '\u{a0}'
    ||| c == '\u{1680}'
    ||| '\u{2000}' <= c <= '\u{200a}'
    ||| c == '\u{2028}'
    ||| c == '\u{2029}'
    ||| c == '\u{202f}'
    ||| c == '\u{205f}'
    ||| c == '\u{3000}'
}

pub open spec fn is_digit(c: char) -> bool {
    '0' <= c <= '9'
}

pub open spec fn is_letter(c: char) -> bool {
    ('a' <= c <= 'z') || ('A' <= c <= 'Z')
}

pub open spec fn is_alphanumeric(c: char) -> bool {
    is_letter(c) || is_digit(c)
}

/// The view of a result whose error is a message.
pub open spec fn outcome<T>(r: Result<T, String>) -> Result<T, Seq<char>> {
    match r {
        Ok(value) => Ok(value),
        Err(message) => Err(message@),
    }
}

pub fn ascii_digit(c: char) -> (r: bool)
    ensures
        r == is_digit(c),
{
    '0' <= c && c <= '9'
}

pub fn ascii_letter(c: char) -> (r: bool)
    ensures
        r == is_letter(c),
{
    ('a' <= c && c <= 'z') || ('A' <= c && c <= 'Z')
}

pub fn ascii_alphanumeric(c: char) -> (r: bool)
    ensures
        r == is_alphanumeric(c),
{
    ascii_letter(c) || ascii_digit(c)
}

/// The code point of a character.
pub fn code_of(c: char) -> (r: u32)
    ensures
        r == c as int,
        r <= 0x10ffff,
{
    c as u32
}

/// Whether two texts hold the same characters.
pub fn same(a: &str, b: &str) -> (r: bool)
    ensures
        r == (a@ == b@),
{
    *a == *b
}

/// Whether two optional texts are both absent or hold the same characters.
pub fn same_option(a: &Option<String>, b: &Option<String>) -> (r: bool)
    ensures
        r == (a.deep_view() == b.deep_view()),
{
    match (a, b) {
        (None, None) => true,
        (Some(x), Some(y)) => *x == *y,
        _ => false,
    }
}

/// Whether two lists of texts are equal element by element.
pub fn same_list(a: &Vec<String>, b: &Vec<String>) -> (r: bool)
    ensures
        r == (a.deep_view() == b.deep_view()),
{
    if a.len() != b.len() {
        assert(a.deep_view().len() != b.deep_view().len());
        return false;
    }
    let mut i: usize = 0;
    while i < a.len()
        invariant
            a.len() == b.len(),
            i <= a.len(),
            forall|k: int| 0 <= k < i ==> a@[k]@ == b@[k]@,
        decreases a.len() - i,
    {
        if a[i] != b[i] {
            assert(a.deep_view()[i as int] != b.deep_view()[i as int]);
            return false;
        }
        i += 1;
    }
    assert(a.deep_view() =~= b.deep_view());
    true
}

/// The characters of a text.
pub fn chars_of(s: &str) -> (r: Vec<char>)
    ensures
        r@ == s@,
{
    let mut r: Vec<char> = Vec::new();
    for c in it: s.chars()
        invariant
            it.seq() == s@,
            r@ == s@.take(it.index() as int),
    {
        r.push(c);
        assert(s@.take(it.index() as int + 1) =~= s@.take(it.index() as int).push(c));
    }
    assert(s@.take(s@.len() as int) =~= s@);
    r
}

/// The text made of `chars[from..to]`.
pub fn text_between(chars: &Vec<char>, from: usize, to: usize) -> (r: String)
    requires
        from <= to <= chars@.len(),
    ensures
        r@ == chars@.subrange(from as int, to as int),
{
    let mut r = String::new();
    let mut i: usize = from;
    while i < to
        invariant
            from <= i <= to <= chars@.len(),
            r@ == chars@.subrange(from as int, i as int),
        decreases to - i,
    {
        r.push(chars[i]);
        assert(chars@.subrange(from as int, i as int + 1) =~= chars@.subrange(from as int, i as int).push(
            chars@[i as int],
        ));
        i += 1;
    }
    r
}

/// `a` followed by `b`.
pub fn concat(a: &str, b: &str) -> (r: String)
    ensures
        r@ == a@ + b@,
{
    let mut r = a.to_owned();
    r.push_str(b);
    r
}

/// `a`, `b` and `c` one after the other.
pub fn concat3(a: &str, b: &str, c: &str) -> (r: String)
    ensures
        r@ == a@ + b@ + c@,
{
    let mut r = a.to_owned();
    r.push_str(b);
    r.push_str(c);
    r
}

/// Five texts one after the other.
pub fn concat5(a: &str, b: &str, c: &str, d: &str, e: &str) -> (r: String)
    ensures
        r@ == a@ + b@ + c@ + d@ + e@,
{
    let mut r = a.to_owned();
    r.push_str(b);
    r.push_str(c);
    r.push_str(d);
    r.push_str(e);
    r
}

/// Whether `needle` stands in `hay` at position `at`.
pub open spec fn stands_at<T>(hay: Seq<T>, needle: Seq<T>, at: int) -> bool {
    &&& 0 <= at
    &&& at + needle.len() <= hay.len()
    &&& hay.subrange(at, at + needle.len()) == needle
}

/// Whether `needle` occurs in `hay`.
pub open spec fn occurs<T>(hay: Seq<T>, needle: Seq<T>) -> bool {
    exists|at: int| #[trigger] stands_at(hay, needle, at)
}

/// The position of the first occurrence of `needle` in `hay` at or after `from`.
pub open spec fn first_from<T>(hay: Seq<T>, needle: Seq<T>, from: int) -> Option<int>
    decreases hay.len() - from + 1,
{
    if from + needle.len() > hay.len() {
        None
    } else if stands_at(hay, needle, from) {
        Some(from)
    } else {
        first_from(hay, needle, from + 1)
    }
}

pub proof fn lemma_first_from<T>(hay: Seq<T>, needle: Seq<T>, from: int)
    requires
        0 <= from,
    ensures
        match first_from(hay, needle, from) {
            Some(at) => from <= at && stands_at(hay, needle, at) && (forall|k: int|
                from <= k < at ==> !#[trigger] stands_at(hay, needle, k)),
            None => forall|k: int| from <= k ==> !#[trigger] stands_at(hay, needle, k),
        },
    decreases hay.len() - from + 1,
{
    if from + needle.len() > hay.len() {
    } else if stands_at(hay, needle, from) {
    } else {
        lemma_first_from(hay, needle, from + 1);
    }
}

pub proof fn lemma_occurs_first<T>(hay: Seq<T>, needle: Seq<T>)
    ensures
        occurs(hay, needle) == (first_from(hay, needle, 0) is Some),
{
    lemma_first_from(hay, needle, 0);
    if first_from(hay, needle, 0) is Some {
        assert(stands_at(hay, needle, first_from(hay, needle, 0)->0));
    }
}

pub fn stands_at_chars(hay: &Vec<char>, needle: &Vec<char>, at: usize) -> (r: bool)
    ensures
        r == stands_at(hay@, needle@, at as int),
{
    if at > hay.len() || needle.len() > hay.len() - at {
        return false;
    }
    let mut i: usize = 0;
    while i < needle.len()
        invariant
            at + needle.len() <= hay.len(),
            i <= needle@.len(),
            forall|k: int| 0 <= k < i ==> hay@[at + k] == needle@[k],
        decreases needle.len() - i,
    {
        if hay[at + i] != needle[i] {
            assert(hay@.subrange(at as int, at + needle@.len())[i as int] != needle@[i as int]);
            return false;
        }
        i += 1;
    }
    assert(hay@.subrange(at as int, at + needle@.len()) =~= needle@);
    true
}

/// The first occurrence of `needle` in `hay` at or after `from`.
pub fn find_chars(hay: &Vec<char>, needle: &Vec<char>, from: usize) -> (r: Option<usize>)
    ensures
        match r {
            Some(at) => first_from(hay@, needle@, from as int) == Some(at as int) && at
                + needle@.len() <= hay@.len(),
            None => first_from(hay@, needle@, from as int) is None,
        },
{
    if from > hay.len() {
        return None;
    }
    let mut at: usize = from;
    while at <= hay.len() && needle.len() <= hay.len() - at
        invariant
            from <= at <= hay@.len() + 1,
            first_from(hay@, needle@, from as int) == first_from(hay@, needle@, at as int),
            hay@.len() <= usize::MAX - 1 || at <= hay@.len(),
        decreases hay.len() + 1 - at,
    {
        if stands_at_chars(hay, needle, at) {
            return Some(at);
        }
        if at == hay.len() {
            assert(first_from(hay@, needle@, at as int + 1) is None);
            return None;
        }
        at += 1;
    }
    None
}

/// The first position of `needle` in `hay`, in characters.
pub fn find(hay: &str, needle: &str) -> (r: Option<usize>)
    ensures
        match r {
            Some(at) => first_from(hay@, needle@, 0) == Some(at as int) && at + needle@.len()
                <= hay@.len(),
            None => first_from(hay@, needle@, 0) is None,
        },
{
    find_chars(&chars_of(hay), &chars_of(needle), 0)
}

pub fn contains(hay: &str, needle: &str) -> (r: bool)
    ensures
        r == occurs(hay@, needle@),
{
    proof {
        lemma_occurs_first(hay@, needle@);
    }
    match find(hay, needle) {
        Some(_) => true,
        None => false,
    }
}

pub open spec fn has_char(s: Seq<char>, c: char) -> bool {
    exists|i: int| 0 <= i < s.len() && s[i] == c
}

pub fn contains_char(s: &str, c: char) -> (r: bool)
    ensures
        r == has_char(s@, c),
{
    let chars = chars_of(s);
    let mut i: usize = 0;
    while i < chars.len()
        invariant
            chars@ == s@,
            i <= chars@.len(),
            forall|k: int| 0 <= k < i ==> s@[k] != c,
        decreases chars.len() - i,
    {
        if chars[i] == c {
            assert(s@[i as int] == c);
            return true;
        }
        i += 1;
    }
    false
}

pub open spec fn begins_with<T>(s: Seq<T>, prefix: Seq<T>) -> bool {
    stands_at(s, prefix, 0)
}

pub open spec fn finishes_with<T>(s: Seq<T>, suffix: Seq<T>) -> bool {
    stands_at(s, suffix, s.len() - suffix.len())
}

pub fn starts_with(s: &str, prefix: &str) -> (r: bool)
    ensures
        r == begins_with(s@, prefix@),
{
    stands_at_chars(&chars_of(s), &chars_of(prefix), 0)
}

pub fn ends_with(s: &str, suffix: &str) -> (r: bool)
    ensures
        r == finishes_with(s@, suffix@),
{
    let chars = chars_of(s);
    let tail = chars_of(suffix);
    if tail.len() > chars.len() {
        return false;
    }
    stands_at_chars(&chars, &tail, chars.len() - tail.len())
}

/// What follows `prefix` in `s`, where `s` begins with it.
pub fn strip_prefix(s: &str, prefix: &str) -> (r: Option<String>)
    ensures
        match r {
            Some(rest) => begins_with(s@, prefix@) && rest@ == s@.skip(prefix@.len() as int),
            None => !begins_with(s@, prefix@),
        },
{
    let chars = chars_of(s);
    let head = chars_of(prefix);
    if stands_at_chars(&chars, &head, 0) {
        Some(text_between(&chars, head.len(), chars.len()))
    } else {
        None
    }
}

/// What `{:?}` prints for a text: the text in quotes, with what needs it escaped.
pub uninterp spec fn debug_text(s: Seq<char>) -> Seq<char>;

/// Formats a text with `{:?}`. The result is named `debug_text` and depends on the text alone.
#[verifier::external_body]
pub(crate) fn quoted(s: &str) -> (r: String)
    ensures
        r@ == debug_text(s@),
{
    format!("{s:?}")
}

/// What `{:?}` prints for an optional text.
pub open spec fn debug_option(s: Option<Seq<char>>) -> Seq<char> {
    match s {
        Some(text) => "Some("@ + debug_text(text) + ")"@,
        None => "None"@,
    }
}

pub fn quoted_option(s: &Option<String>) -> (r: String)
    ensures
        r@ == debug_option(s.deep_view()),
{
    match s {
        Some(text) => concat3("Some(", quoted(text.as_str()).as_str(), ")"),
        None => "None".to_owned(),
    }
}

pub open spec fn or_text(value: Option<Seq<char>>, otherwise: Seq<char>) -> Seq<char> {
    match value {
        Some(text) => text,
        None => otherwise,
    }
}

pub fn value_or<'a>(value: &'a Option<String>, otherwise: &'a str) -> (r: &'a str)
    ensures
        r@ == or_text(value.deep_view(), otherwise@),
{
    match value {
        Some(text) => text.as_str(),
        None => otherwise,
    }
}

pub open spec fn bool_text(b: bool) -> Seq<char> {
    if b {
        "true"@
    } else {
        "false"@
    }
}

pub fn show_bool(b: bool) -> (r: String)
    ensures
        r@ == bool_text(b),
{
    if b {
        "true".to_owned()
    } else {
        "false".to_owned()
    }
}

/// Appends one line.
pub fn push_line(lines: &mut Vec<String>, line: String)
    ensures
        final(lines).deep_view() == old(lines).deep_view().push(line@),
{
    let ghost had = lines.deep_view();
    let ghost text = line@;
    lines.push(line);
    assert(lines.deep_view() =~= had.push(text));
}

/// Whether a text holds nothing but white space.
pub open spec fn is_blank(s: Seq<char>) -> bool {
    forall|i: int| 0 <= i < s.len() ==> is_white(#[trigger] s[i])
}

pub fn blank(s: &str) -> (r: bool)
    ensures
        r == is_blank(s@),
{
    let chars = chars_of(s);
    let mut i: usize = 0;
    while i < chars.len()
        invariant
            chars@ == s@,
            i <= chars@.len(),
            forall|k: int| 0 <= k < i ==> is_white(#[trigger] s@[k]),
        decreases chars.len() - i,
    {
        if !chars[i].is_whitespace() {
            assert(!is_white(s@[i as int]));
            return false;
        }
        i += 1;
    }
    true
}

pub open spec fn has_white(s: Seq<char>) -> bool {
    exists|i: int| 0 <= i < s.len() && is_white(#[trigger] s[i])
}

pub fn contains_white(s: &str) -> (r: bool)
    ensures
        r == has_white(s@),
{
    let chars = chars_of(s);
    let mut i: usize = 0;
    while i < chars.len()
        invariant
            chars@ == s@,
            i <= chars@.len(),
            forall|k: int| 0 <= k < i ==> !is_white(#[trigger] s@[k]),
        decreases chars.len() - i,
    {
        if chars[i].is_whitespace() {
            assert(is_white(s@[i as int]));
            return true;
        }
        i += 1;
    }
    false
}

/// `s[from..]` with every `pattern` replaced by `with`, from left to right.
pub open spec fn replaced_from(s: Seq<char>, pattern: Seq<char>, with: Seq<char>, from: int) -> Seq<char>
    decreases s.len() - from,
{
    if from >= s.len() || pattern.len() == 0 {
        Seq::empty()
    } else if stands_at(s, pattern, from) {
        with + replaced_from(s, pattern, with, from + pattern.len())
    } else {
        seq![s[from]] + replaced_from(s, pattern, with, from + 1)
    }
}

/// `s` with every `pattern` replaced by `with`.
pub open spec fn replaced(s: Seq<char>, pattern: Seq<char>, with: Seq<char>) -> Seq<char> {
    replaced_from(s, pattern, with, 0)
}

pub fn replace(s: &str, pattern: &str, with: &str) -> (r: String)
    requires
        pattern@.len() > 0,
    ensures
        r@ == replaced(s@, pattern@, with@),
{
    let chars = chars_of(s);
    let wanted = chars_of(pattern);
    let mut result = String::new();
    let mut i: usize = 0;
    assert(result@ + replaced_from(s@, pattern@, with@, 0) =~= replaced(s@, pattern@, with@));
    while i < chars.len()
        invariant
            chars@ == s@,
            wanted@ == pattern@,
            pattern@.len() > 0,
            i <= chars@.len(),
            result@ + replaced_from(s@, pattern@, with@, i as int) == replaced(s@, pattern@, with@),
        decreases chars.len() - i,
    {
        let ghost had = result@;
        if stands_at_chars(&chars, &wanted, i) {
            result.push_str(with);
            assert(had + (with@ + replaced_from(s@, pattern@, with@, i + pattern@.len())) =~= result@
                + replaced_from(s@, pattern@, with@, i + pattern@.len()));
            i += wanted.len();
        } else {
            result.push(chars[i]);
            assert(had + (seq![s@[i as int]] + replaced_from(s@, pattern@, with@, i + 1)) =~= result@
                + replaced_from(s@, pattern@, with@, i + 1));
            i += 1;
        }
    }
    assert(result@ + Seq::<char>::empty() =~= result@);
    result
}

/// Whether a list holds a text.
pub open spec fn lists_text(list: Seq<Seq<char>>, s: Seq<char>) -> bool {
    exists|i: int| 0 <= i < list.len() && #[trigger] list[i] == s
}


/// A class of characters to trim.
#[derive(Debug, Clone, Copy, PartialEq, Eq, Structural)]
pub enum CharClass {
    /// Unicode white space.
    White,
    /// NUL and ASCII white space, which pad the fields of archive headers.
    Padding,
    /// Single and double quotes.
    Quote,
    /// Quotes, parentheses and semicolons, which surround words in shell commands.
    Shell,
    /// One character.
    One(char),
}

pub open spec fn in_class(class: CharClass, c: char) -> bool {
    match class {
        CharClass::White => is_white(c),
        CharClass::Padding => c == '\0' || c == ' ' || c == '\t' || c == '\n' || c == '\u{c}' || c
            == '\r',
        CharClass::Quote => c == '\'' || c == '"',
        CharClass::Shell => c == '\'' || c == '"' || c == ';' || c == '(' || c == ')',
        CharClass::One(own) => c == own,
    }
}

/// `s` without the characters of `class` at its beginning.
pub open spec fn trimmed_start(s: Seq<char>, class: CharClass) -> Seq<char>
    decreases s.len(),
{
    if s.len() > 0 && in_class(class, s[0]) {
        trimmed_start(s.skip(1), class)
    } else {
        s
    }
}

/// `s` without the characters of `class` at its end.
pub open spec fn trimmed_end(s: Seq<char>, class: CharClass) -> Seq<char>
    decreases s.len(),
{
    if s.len() > 0 && in_class(class, s.last()) {
        trimmed_end(s.drop_last(), class)
    } else {
        s
    }
}

/// `s` without the characters of `class` at either end.
pub open spec fn trimmed(s: Seq<char>, class: CharClass) -> Seq<char> {
    trimmed_end(trimmed_start(s, class), class)
}

fn belongs(class: CharClass, c: char) -> (r: bool)
    ensures
        r == in_class(class, c),
{
    match class {
        CharClass::White => c.is_whitespace(),
        CharClass::Padding => c == '\0' || c == ' ' || c == '\t' || c == '\n' || c == '\u{c}' || c
            == '\r',
        CharClass::Quote => c == '\'' || c == '"',
        CharClass::Shell => c == '\'' || c == '"' || c == ';' || c == '(' || c == ')',
        CharClass::One(own) => c == own,
    }
}

pub fn trim_start(s: &str, class: CharClass) -> (r: String)
    ensures
        r@ == trimmed_start(s@, class),
{
    let chars = chars_of(s);
    let mut i: usize = 0;
    assert(s@.skip(0) =~= s@);
    while i < chars.len() && belongs(class, chars[i])
        invariant
            chars@ == s@,
            i <= chars@.len(),
            trimmed_start(s@, class) == trimmed_start(s@.skip(i as int), class),
        decreases chars.len() - i,
    {
        assert(s@.skip(i as int).skip(1) =~= s@.skip(i + 1));
        i += 1;
    }
    text_between(&chars, i, chars.len())
}

pub fn trim_end(s: &str, class: CharClass) -> (r: String)
    ensures
        r@ == trimmed_end(s@, class),
{
    let chars = chars_of(s);
    let mut i: usize = chars.len();
    assert(s@.take(s@.len() as int) =~= s@);
    while i > 0 && belongs(class, chars[i - 1])
        invariant
            chars@ == s@,
            i <= chars@.len(),
            trimmed_end(s@, class) == trimmed_end(s@.take(i as int), class),
        decreases i,
    {
        assert(s@.take(i as int).drop_last() =~= s@.take(i - 1));
        i -= 1;
    }
    assert(s@.subrange(0, i as int) =~= s@.take(i as int));
    text_between(&chars, 0, i)
}

pub fn trim(s: &str, class: CharClass) -> (r: String)
    ensures
        r@ == trimmed(s@, class),
{
    let rest = trim_start(s, class);
    trim_end(rest.as_str(), class)
}

/// The text that bytes stand for, with what is not UTF-8 replaced.
pub uninterp spec fn lossy_text(bytes: Seq<u8>) -> Seq<char>;

/// Decodes bytes with `String::from_utf8_lossy`. The result is named `lossy_text` and depends on
/// the bytes alone. On valid UTF-8 it is the text that the bytes encode.
#[verifier::external_body]
fn lossy(bytes: &[u8]) -> (r: String)
    ensures
        r@ == lossy_text(bytes@),
        valid_utf8(bytes@) ==> r@ == decode_utf8(bytes@),
{
    String::from_utf8_lossy(bytes).into_owned()
}

/// The text that bytes stand for: what they encode, or, where they are not UTF-8, the text with the
/// offending bytes replaced.
pub open spec fn decoded_text(bytes: Seq<u8>) -> Seq<char> {
    if valid_utf8(bytes) {
        decode_utf8(bytes)
    } else {
        lossy_text(bytes)
    }
}

pub fn decode(bytes: &[u8]) -> (r: String)
    ensures
        r@ == decoded_text(bytes@),
{
    lossy(bytes)
}

/// Two texts with the same start are the same only if their ends are.
pub proof fn lemma_same_start(start: Seq<char>, a: Seq<char>, b: Seq<char>)
    ensures
        start + a == start + b ==> a == b,
{
    if start + a == start + b {
        assert((start + a).skip(start.len() as int) =~= a);
        assert((start + b).skip(start.len() as int) =~= b);
    }
}

/// The first `n` texts of a list with `separator` between them.
pub open spec fn joined(list: Seq<Seq<char>>, separator: Seq<char>, n: int) -> Seq<char>
    decreases n,
{
    if n <= 0 {
        Seq::empty()
    } else if n == 1 {
        list[0]
    } else {
        joined(list, separator, n - 1) + separator + list[n - 1]
    }
}

pub fn join(list: &Vec<String>, separator: &str) -> (r: String)
    ensures
        r@ == joined(list.deep_view(), separator@, list@.len() as int),
{
    let mut r = String::new();
    let mut n: usize = 0;
    while n < list.len()
        invariant
            n <= list@.len(),
            r@ == joined(list.deep_view(), separator@, n as int),
        decreases list.len() - n,
    {
        assert(list.deep_view()[n as int] == list@[n as int]@);
        if n == 0 {
            r = list[0].clone();
        } else {
            r.push_str(separator);
            r.push_str(list[n].as_str());
        }
        n += 1;
    }
    r
}


/// Decodes bytes with `std::str::from_utf8`: it succeeds exactly on valid UTF-8, with the text that
/// the bytes encode.
#[verifier::external_body]
pub(crate) fn utf8_text(bytes: &[u8]) -> (r: Option<String>)
    ensures
        match r {
            Some(text) => valid_utf8(bytes@) && text@ == decode_utf8(bytes@),
            None => !valid_utf8(bytes@),
        },
{
    match std::str::from_utf8(bytes) {
        Ok(text) => Some(text.to_owned()),
        Err(_) => None,
    }
}


/// A character with an upper-case ASCII letter made lower-case.
pub open spec fn lower_char(c: char) -> char {
    if 'A' <= c <= 'Z' {
        (c as int + 32) as char
    } else {
        c
    }
}

/// A text with its upper-case ASCII letters made lower-case.
pub open spec fn lower(s: Seq<char>) -> Seq<char> {
    s.map_values(|c: char| lower_char(c))
}

fn lower_one(c: char) -> (r: char)
    ensures
        r == lower_char(c),
{
    if 'A' <= c && c <= 'Z' {
        ((c as u8) + 32) as char
    } else {
        c
    }
}

pub fn to_lower(s: &str) -> (r: String)
    ensures
        r@ == lower(s@),
{
    let chars = chars_of(s);
    let mut r = String::new();
    let mut i: usize = 0;
    assert(lower(s@).take(0) =~= Seq::<char>::empty());
    while i < chars.len()
        invariant
            chars@ == s@,
            i <= chars@.len(),
            r@ == lower(s@).take(i as int),
        decreases chars.len() - i,
    {
        r.push(lower_one(chars[i]));
        assert(lower(s@).take(i + 1) =~= lower(s@).take(i as int).push(lower_char(s@[i as int])));
        i += 1;
    }
    assert(lower(s@).take(s@.len() as int) =~= lower(s@));
    r
}

/// The lines of `s` from `from` on, where the current line began at `start`: each ends at a line
/// feed, a carriage return before it does not count, and an empty rest is no line.
pub open spec fn lines_from(s: Seq<char>, start: int, from: int) -> Seq<Seq<char>>
    decreases s.len() - from,
{
    if from >= s.len() {
        if start >= s.len() {
            Seq::empty()
        } else {
            seq![s.subrange(start, s.len() as int)]
        }
    } else if s[from] == '\n' {
        let end = if from > start && s[from - 1] == '\r' {
            from - 1
        } else {
            from
        };
        seq![s.subrange(start, end)] + lines_from(s, from + 1, from + 1)
    } else {
        lines_from(s, start, from + 1)
    }
}

/// The lines of a text.
pub open spec fn lines_of(s: Seq<char>) -> Seq<Seq<char>> {
    lines_from(s, 0, 0)
}

pub fn lines(s: &str) -> (r: Vec<String>)
    ensures
        r.deep_view() == lines_of(s@),
{
    let chars = chars_of(s);
    let mut result: Vec<String> = Vec::new();
    let mut start: usize = 0;
    let mut i: usize = 0;
    assert(result.deep_view() + lines_from(s@, 0, 0) =~= lines_of(s@));
    while i < chars.len()
        invariant
            chars@ == s@,
            start <= i <= chars@.len(),
            result.deep_view() + lines_from(s@, start as int, i as int) == lines_of(s@),
        decreases chars.len() - i,
    {
        if chars[i] == '\n' {
            let end: usize = if i > start && chars[i - 1] == '\r' {
                i - 1
            } else {
                i
            };
            let ghost had = result.deep_view();
            let line = text_between(&chars, start, end);
            let ghost text = line@;
            result.push(line);
            assert(result.deep_view() =~= had.push(text));
            assert(had + (seq![text] + lines_from(s@, i + 1, i + 1)) =~= result.deep_view()
                + lines_from(s@, i + 1, i + 1));
            start = i + 1;
        }
        i += 1;
    }
    if start < chars.len() {
        let ghost had = result.deep_view();
        let line = text_between(&chars, start, chars.len());
        let ghost text = line@;
        result.push(line);
        assert(result.deep_view() =~= had + seq![text]);
    } else {
        assert(result.deep_view() + Seq::<Seq<char>>::empty() =~= result.deep_view());
    }
    result
}

/// What stands before and after the first `separator`.
pub open spec fn split_first(s: Seq<char>, separator: Seq<char>) -> Option<(Seq<char>, Seq<char>)> {
    match first_from(s, separator, 0) {
        Some(at) => Some((s.take(at), s.skip(at + separator.len()))),
        None => None,
    }
}

pub fn split_once(s: &str, separator: &str) -> (r: Option<(String, String)>)
    ensures
        r.deep_view() == split_first(s@, separator@),
{
    let chars = chars_of(s);
    let wanted = chars_of(separator);
    match find_chars(&chars, &wanted, 0) {
        Some(at) => {
            assert(s@.subrange(0, at as int) =~= s@.take(at as int));
            assert(s@.subrange(at + separator@.len(), s@.len() as int) =~= s@.skip(
                at + separator@.len(),
            ));
            let total: usize = chars.len();
            let after: usize = total - (total - at - wanted.len());
            Some((text_between(&chars, 0, at), text_between(&chars, after, total)))
        },
        None => None,
    }
}

/// The words from `start` on, separated by white space, where nothing but the word that begins at
/// `start` stands before `from`.
pub open spec fn words_from(s: Seq<char>, start: int, from: int) -> Seq<Seq<char>>
    decreases s.len() - from,
{
    if from >= s.len() {
        if start >= s.len() {
            Seq::empty()
        } else {
            seq![s.subrange(start, s.len() as int)]
        }
    } else if !is_white(s[from]) {
        words_from(s, start, from + 1)
    } else if start < from {
        seq![s.subrange(start, from)] + words_from(s, from + 1, from + 1)
    } else {
        words_from(s, from + 1, from + 1)
    }
}

/// What stands between white space.
pub open spec fn words_of(s: Seq<char>) -> Seq<Seq<char>> {
    words_from(s, 0, 0)
}

pub fn words(s: &str) -> (r: Vec<String>)
    ensures
        r.deep_view() == words_of(s@),
{
    let chars = chars_of(s);
    let mut result: Vec<String> = Vec::new();
    let mut start: usize = 0;
    let mut i: usize = 0;
    assert(result.deep_view() + words_from(s@, 0, 0) =~= words_of(s@));
    while i < chars.len()
        invariant
            chars@ == s@,
            start <= i <= chars@.len(),
            result.deep_view() + words_from(s@, start as int, i as int) == words_of(s@),
        decreases chars.len() - i,
    {
        if chars[i].is_whitespace() {
            if start < i {
                let ghost had = result.deep_view();
                let word = text_between(&chars, start, i);
                let ghost text = word@;
                result.push(word);
                assert(result.deep_view() =~= had.push(text));
                assert(had + (seq![text] + words_from(s@, i + 1, i + 1)) =~= result.deep_view()
                    + words_from(s@, i + 1, i + 1));
            }
            start = i + 1;
        }
        i += 1;
    }
    if start < chars.len() {
        let ghost had = result.deep_view();
        let word = text_between(&chars, start, chars.len());
        let ghost text = word@;
        result.push(word);
        assert(result.deep_view() =~= had + seq![text]);
    } else {
        assert(result.deep_view() + Seq::<Seq<char>>::empty() =~= result.deep_view());
    }
    result
}

/// `s` without any number of `prefix` at its beginning.
pub open spec fn without_leading(s: Seq<char>, prefix: Seq<char>) -> Seq<char>
    decreases s.len(),
{
    if prefix.len() > 0 && begins_with(s, prefix) {
        without_leading(s.skip(prefix.len() as int), prefix)
    } else {
        s
    }
}

pub fn strip_leading(s: &str, prefix: &str) -> (r: String)
    ensures
        r@ == without_leading(s@, prefix@),
{
    let chars = chars_of(s);
    let head = chars_of(prefix);
    let mut at: usize = 0;
    assert(s@.skip(0) =~= s@);
    if head.len() > 0 {
        while stands_at_chars(&chars, &head, at)
            invariant
                chars@ == s@,
                head@ == prefix@,
                head@.len() > 0,
                at <= chars@.len(),
                without_leading(s@, prefix@) == without_leading(s@.skip(at as int), prefix@),
            decreases chars.len() - at,
        {
            assert(begins_with(s@.skip(at as int), prefix@)) by {
                assert(s@.skip(at as int).subrange(0, prefix@.len() as int) =~= s@.subrange(
                    at as int,
                    at + prefix@.len(),
                ));
            }
            assert(s@.skip(at as int).skip(prefix@.len() as int) =~= s@.skip(at + prefix@.len()));
            at = at + head.len();
        }
        assert(!begins_with(s@.skip(at as int), prefix@)) by {
            if begins_with(s@.skip(at as int), prefix@) {
                assert(s@.skip(at as int).subrange(0, prefix@.len() as int) =~= s@.subrange(
                    at as int,
                    at + prefix@.len(),
                ));
            }
        }
    }
    assert(s@.subrange(at as int, s@.len() as int) =~= s@.skip(at as int));
    text_between(&chars, at, chars.len())
}

/// How often `needle` stands in `hay` from `from` on, without overlap.
pub open spec fn match_count_from<T>(hay: Seq<T>, needle: Seq<T>, from: int) -> nat
    decreases hay.len() - from,
{
    match first_from(hay, needle, from) {
        Some(at) => if needle.len() > 0 && from <= at && at + needle.len() <= hay.len() {
            1 + match_count_from(hay, needle, at + needle.len())
        } else {
            0
        },
        None => 0,
    }
}

/// How often `needle` stands in `hay`, without overlap; nothing stands everywhere.
pub open spec fn match_count(hay: Seq<char>, needle: Seq<char>) -> nat {
    if needle.len() == 0 {
        hay.len() + 1
    } else {
        match_count_from(hay, needle, 0)
    }
}

/// Whether `needle` stands exactly once in `hay`.
pub fn occurs_once(hay: &str, needle: &str) -> (r: bool)
    ensures
        r == (match_count(hay@, needle@) == 1),
{
    let chars = chars_of(hay);
    let wanted = chars_of(needle);
    if wanted.len() == 0 {
        return chars.len() == 0;
    }
    proof {
        lemma_first_from(hay@, needle@, 0);
    }
    match find_chars(&chars, &wanted, 0) {
        None => false,
        Some(at) => {
            let total: usize = chars.len();
            let after: usize = total - (total - at - wanted.len());
            proof {
                lemma_first_from(hay@, needle@, after as int);
            }
            let again = find_chars(&chars, &wanted, after);
            assert(match_count_from(hay@, needle@, 0) == 1 + match_count_from(
                hay@,
                needle@,
                after as int,
            ));
            assert(again is None == (match_count_from(hay@, needle@, after as int) == 0));
            again.is_none()
        },
    }
}

/// `s` with the first `needle` replaced.
pub open spec fn replaced_once(s: Seq<char>, needle: Seq<char>, with: Seq<char>) -> Seq<char> {
    match first_from(s, needle, 0) {
        Some(at) => s.take(at) + with + s.skip(at + needle.len()),
        None => s,
    }
}

pub fn replace_once(s: &str, needle: &str, with: &str) -> (r: String)
    ensures
        r@ == replaced_once(s@, needle@, with@),
{
    match split_once(s, needle) {
        Some(parts) => concat3(parts.0.as_str(), with, parts.1.as_str()),
        None => s.to_owned(),
    }
}

/// How many of the first `n` characters are `c`.
pub open spec fn char_count(s: Seq<char>, c: char, n: int) -> nat
    decreases n,
{
    if n <= 0 {
        0
    } else {
        char_count(s, c, n - 1) + if s[n - 1] == c {
            1nat
        } else {
            0
        }
    }
}

/// Each line of a text after a mark, separated by line ends.
pub open spec fn marked_lines(mark: Seq<char>, s: Seq<char>) -> Seq<char> {
    let marked = lines_of(s).map_values(|line: Seq<char>| mark + line);
    joined(marked, "\n"@, marked.len() as int)
}

pub fn mark_lines(mark: &str, s: &str) -> (r: String)
    ensures
        r@ == marked_lines(mark@, s@),
{
    let own = lines(s);
    let ghost wanted = lines_of(s@).map_values(|line: Seq<char>| mark@ + line);
    let mut marked: Vec<String> = Vec::new();
    let mut i: usize = 0;
    while i < own.len()
        invariant
            own.deep_view() == lines_of(s@),
            wanted == lines_of(s@).map_values(|line: Seq<char>| mark@ + line),
            i <= own@.len(),
            marked@.len() == i,
            forall|k: int| 0 <= k < i ==> (#[trigger] marked@[k])@ == wanted[k],
        decreases own.len() - i,
    {
        assert(lines_of(s@)[i as int] == own@[i as int]@);
        marked.push(concat(mark, own[i].as_str()));
        i += 1;
    }
    assert(own.deep_view().len() == own@.len());
    assert(marked.deep_view() =~= wanted);
    join(&marked, "\n")
}

pub fn count_lines(s: &str) -> (r: usize)
    ensures
        r == lines_of(s@).len(),
{
    let own = lines(s);
    assert(own.deep_view().len() == own@.len());
    own.len()
}

} // verus!
