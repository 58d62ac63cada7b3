//! What taking texts apart and putting them together gives.
use vstd::prelude::*;

use crate::laws::archives::{lemma_trim_end_filler, lemma_trim_start_filler};
use crate::text::{
    in_class, is_white, joined, lines_from, lines_of, lower, replaced, replaced_from, stands_at,
    trimmed, words_from, words_of, CharClass,
};

verus! {

/// Trimming takes away what was put around a text, and nothing of the text.
pub proof fn law_trimming_takes_what_was_put_around(
    left: Seq<char>,
    text: Seq<char>,
    right: Seq<char>,
    class: CharClass,
)
    requires
        forall|i: int| 0 <= i < left.len() ==> in_class(class, #[trigger] left[i]),
        forall|i: int| 0 <= i < right.len() ==> in_class(class, #[trigger] right[i]),
        text.len() > 0,
        !in_class(class, text[0]),
        !in_class(class, text.last()),
    ensures
        trimmed(left + text + right, class) == text,
{
    assert(left + text + right =~= left + (text + right));
    lemma_trim_start_filler(left, text + right, class);
    lemma_trim_end_filler(text, right, class);
}

proof fn lemma_lines_shift(a: Seq<char>, r: Seq<char>, start: int, from: int)
    requires
        0 <= start <= from <= r.len(),
    ensures
        lines_from(a + r, a.len() + start, a.len() + from) == lines_from(r, start, from),
    decreases r.len() - from,
{
    let all = a + r;
    let n = a.len() as int;
    if from >= r.len() {
        if start < r.len() {
            assert(all.subrange(n + start, all.len() as int) =~= r.subrange(start, r.len() as int));
        }
    } else {
        assert(all[n + from] == r[from]);
        if r[from] == '\n' {
            lemma_lines_shift(a, r, from + 1, from + 1);
            if from > start {
                assert(all[n + from - 1] == r[from - 1]);
            }
            assert(all.subrange(n + start, n + from) =~= r.subrange(start, from));
            if from > start {
                assert(all.subrange(n + start, n + from - 1) =~= r.subrange(start, from - 1));
            }
        } else {
            lemma_lines_shift(a, r, start, from + 1);
        }
    }
}

proof fn lemma_lines_scan(s: Seq<char>, start: int, from: int, end: int)
    requires
        0 <= start <= from <= end <= s.len(),
        forall|i: int| from <= i < end ==> #[trigger] s[i] != '\n',
    ensures
        lines_from(s, start, from) == lines_from(s, start, end),
    decreases end - from,
{
    if from < end {
        assert(s[from] != '\n');
        lemma_lines_scan(s, start, from + 1, end);
    }
}

/// A line that is put before a text becomes its first line, with or without a carriage return before its
/// line feed, and the text keeps its own lines.
pub proof fn law_lines_end_at_line_feeds(line: Seq<char>, rest: Seq<char>)
    requires
        forall|i: int| 0 <= i < line.len() ==> #[trigger] line[i] != '\n',
        line.len() > 0 ==> line.last() != '\r',
    ensures
        lines_of(line + seq!['\n'] + rest) == seq![line] + lines_of(rest),
        lines_of(line + seq!['\r', '\n'] + rest) == seq![line] + lines_of(rest),
        line.len() > 0 ==> lines_of(line) == seq![line],
        lines_of(Seq::empty()).len() == 0,
{
    let n = line.len() as int;
    let head = line + seq!['\n'];
    let all = head + rest;
    assert forall|i: int| 0 <= i < n implies #[trigger] all[i] != '\n' by {
        assert(all[i] == line[i]);
    }
    lemma_lines_scan(all, 0, 0, n);
    assert(all[n] == '\n');
    if n > 0 {
        assert(all[n - 1] == line.last());
    }
    assert(all.subrange(0, n) =~= line);
    lemma_lines_shift(head, rest, 0, 0);
    let head2 = line + seq!['\r', '\n'];
    let all2 = head2 + rest;
    assert forall|i: int| 0 <= i < n + 1 implies #[trigger] all2[i] != '\n' by {
        if i < n {
            assert(all2[i] == line[i]);
        } else {
            assert(all2[i] == '\r');
        }
    }
    lemma_lines_scan(all2, 0, 0, n + 1);
    assert(all2[n + 1] == '\n' && all2[n] == '\r');
    assert(all2.subrange(0, n) =~= line);
    lemma_lines_shift(head2, rest, 0, 0);
    if n > 0 {
        lemma_lines_scan(line, 0, 0, n);
        assert(line.subrange(0, n) =~= line);
    }
}

proof fn lemma_words_shift(a: Seq<char>, r: Seq<char>, start: int, from: int)
    requires
        0 <= start <= from <= r.len(),
    ensures
        words_from(a + r, a.len() + start, a.len() + from) == words_from(r, start, from),
    decreases r.len() - from,
{
    let all = a + r;
    let n = a.len() as int;
    if from >= r.len() {
        if start < r.len() {
            assert(all.subrange(n + start, all.len() as int) =~= r.subrange(start, r.len() as int));
        }
    } else {
        assert(all[n + from] == r[from]);
        if !is_white(r[from]) {
            lemma_words_shift(a, r, start, from + 1);
        } else {
            lemma_words_shift(a, r, from + 1, from + 1);
            assert(all.subrange(n + start, n + from) =~= r.subrange(start, from));
        }
    }
}

proof fn lemma_words_scan(s: Seq<char>, start: int, from: int, end: int)
    requires
        0 <= start <= from <= end <= s.len(),
        forall|i: int| from <= i < end ==> !is_white(#[trigger] s[i]),
    ensures
        words_from(s, start, from) == words_from(s, start, end),
    decreases end - from,
{
    if from < end {
        assert(!is_white(s[from]));
        lemma_words_scan(s, start, from + 1, end);
    }
}

/// A word that is put before a text, with white space behind it, becomes its first word; white space
/// before a text changes no word.
pub proof fn law_words_end_at_white_space(word: Seq<char>, c: char, rest: Seq<char>)
    requires
        forall|i: int| 0 <= i < word.len() ==> !is_white(#[trigger] word[i]),
        is_white(c),
    ensures
        word.len() > 0 ==> words_of(word + seq![c] + rest) == seq![word] + words_of(rest),
        word.len() > 0 ==> words_of(word) == seq![word],
        words_of(seq![c] + rest) == words_of(rest),
{
    let n = word.len() as int;
    let head = word + seq![c];
    let all = head + rest;
    assert forall|i: int| 0 <= i < n implies !is_white(#[trigger] all[i]) by {
        assert(all[i] == word[i]);
    }
    lemma_words_scan(all, 0, 0, n);
    assert(all[n] == c);
    assert(all.subrange(0, n) =~= word);
    lemma_words_shift(head, rest, 0, 0);
    if n > 0 {
        lemma_words_scan(word, 0, 0, n);
        assert(word.subrange(0, n) =~= word);
    }
    let other = seq![c] + rest;
    assert(other[0] == c);
    lemma_words_shift(seq![c], rest, 0, 0);
}

/// Texts are joined with the separator between each two of them, and with none around.
pub proof fn law_joined_texts_have_separators_between(
    list: Seq<Seq<char>>,
    separator: Seq<char>,
    last: Seq<char>,
)
    ensures
        joined(Seq::empty(), separator, 0) == Seq::<char>::empty(),
        joined(seq![last], separator, 1) == last,
        list.len() > 0 ==> joined(list.push(last), separator, list.len() as int + 1) == joined(
            list,
            separator,
            list.len() as int,
        ) + separator + last,
{
    lemma_joined_prefix(list, list.push(last), separator, list.len() as int);
}

proof fn lemma_joined_prefix(
    a: Seq<Seq<char>>,
    b: Seq<Seq<char>>,
    separator: Seq<char>,
    n: int,
)
    requires
        0 <= n <= a.len(),
        n <= b.len(),
        forall|i: int| 0 <= i < n ==> a[i] == #[trigger] b[i],
    ensures
        joined(a, separator, n) == joined(b, separator, n),
    decreases n,
{
    if n > 0 {
        lemma_joined_prefix(a, b, separator, n - 1);
        assert(a[n - 1] == b[n - 1]);
    }
}

proof fn lemma_replaced_shift(
    a: Seq<char>,
    r: Seq<char>,
    pattern: Seq<char>,
    with: Seq<char>,
    from: int,
)
    requires
        0 <= from <= r.len(),
    ensures
        replaced_from(a + r, pattern, with, a.len() + from) == replaced_from(
            r,
            pattern,
            with,
            from,
        ),
    decreases r.len() - from,
{
    let all = a + r;
    let n = a.len() as int;
    if from < r.len() && pattern.len() > 0 {
        if from + pattern.len() <= r.len() {
            assert(all.subrange(n + from, n + from + pattern.len()) =~= r.subrange(
                from,
                from + pattern.len(),
            ));
        }
        if stands_at(r, pattern, from) {
            lemma_replaced_shift(a, r, pattern, with, from + pattern.len());
        } else {
            assert(all[n + from] == r[from]);
            lemma_replaced_shift(a, r, pattern, with, from + 1);
        }
    }
}

/// The first occurrence of a pattern is replaced, what stands before it is kept, and the rest is treated
/// likewise; a text without the pattern stays as it is.
pub proof fn law_replacing_goes_from_left_to_right(
    head: Seq<char>,
    pattern: Seq<char>,
    with: Seq<char>,
    rest: Seq<char>,
)
    requires
        pattern.len() > 0,
        forall|i: int| 0 <= i < head.len() ==> !#[trigger] stands_at(head + pattern + rest, pattern, i),
    ensures
        replaced(head + pattern + rest, pattern, with) == head + with + replaced(rest, pattern, with),
{
    let all = head + pattern + rest;
    lemma_kept(all, pattern, with, 0, head.len() as int);
    assert(all.subrange(head.len() as int, head.len() as int + pattern.len()) =~= pattern);
    lemma_replaced_shift(head + pattern, rest, pattern, with, 0);
    assert(all.subrange(0, head.len() as int) =~= head);
    assert(head + (with + replaced(rest, pattern, with)) =~= head + with + replaced(
        rest,
        pattern,
        with,
    ));
}

proof fn lemma_kept(s: Seq<char>, pattern: Seq<char>, with: Seq<char>, from: int, end: int)
    requires
        0 <= from <= end <= s.len(),
        pattern.len() > 0,
        forall|i: int| from <= i < end ==> !#[trigger] stands_at(s, pattern, i),
    ensures
        replaced_from(s, pattern, with, from) == s.subrange(from, end) + replaced_from(
            s,
            pattern,
            with,
            end,
        ),
    decreases end - from,
{
    if from < end {
        assert(!stands_at(s, pattern, from));
        lemma_kept(s, pattern, with, from + 1, end);
        assert(seq![s[from]] + (s.subrange(from + 1, end) + replaced_from(s, pattern, with, end))
            =~= s.subrange(from, end) + replaced_from(s, pattern, with, end));
    } else {
        assert(s.subrange(from, end) + replaced_from(s, pattern, with, end) =~= replaced_from(
            s,
            pattern,
            with,
            end,
        ));
    }
}

/// A text without the pattern stays as it is.
pub proof fn law_texts_without_the_pattern_stay(text: Seq<char>, pattern: Seq<char>, with: Seq<char>)
    requires
        pattern.len() > 0,
        !crate::text::occurs(text, pattern),
    ensures
        replaced(text, pattern, with) == text,
{
    lemma_kept(text, pattern, with, 0, text.len() as int);
    assert(text.subrange(0, text.len() as int) + Seq::<char>::empty() =~= text);
}

/// Lower case changes the letters from A to Z alone, and keeps what is in lower case.
pub proof fn law_lower_case_changes_capitals_alone(s: Seq<char>, i: int)
    requires
        0 <= i < s.len(),
    ensures
        lower(s).len() == s.len(),
        !('A' <= s[i] <= 'Z') ==> lower(s)[i] == s[i],
        'A' <= s[i] <= 'Z' ==> 'a' <= lower(s)[i] <= 'z' && lower(s)[i] as int - s[i] as int == 'a' as int
            - 'A' as int,
        lower(lower(s)) == lower(s),
{
    assert(lower(lower(s)) =~= lower(s));
}

} // verus!
