//! What a reader finds in a first configuration: tables, keys, texts and lists of texts.
use vstd::prelude::*;

use crate::init::{
    array_text, config_text, detection_label, escaped, escaped_char, escaped_from, head_text,
    items_from, lemma_escaped_from, lemma_items_from, note_comments, runner_line, string_text,
    values_text, InitPlanView, EXPERIMENTS_TEMPLATE,
};
use crate::model::{runner_executable, RunnerBackend};
use crate::numbers::{
    all_digits, digit_char, digit_value, digits_of, law_written_numbers_read_back, number_in,
    value_of,
};
use crate::text::{begins_with, replaced, replaced_from};

verus! {

/// Whether a character may not stand in a quoted text as it is.
pub open spec fn is_control(c: char) -> bool {
    (c as u32) < 32 && c != '\t' || c == '\u{7f}'
}

/// The first character of a quoted text, and how many characters it is written in.
pub open spec fn quoted_char(s: Seq<char>) -> Option<(char, int)> {
    if s[0] != '\\' {
        if is_control(s[0]) {
            None
        } else {
            Some((s[0], 1))
        }
    } else if s.len() < 2 {
        None
    } else if s[1] == '"' || s[1] == '\\' {
        Some((s[1], 2))
    } else if s[1] == 'b' {
        Some(('\u{8}', 2))
    } else if s[1] == 't' {
        Some(('\t', 2))
    } else if s[1] == 'n' {
        Some(('\n', 2))
    } else if s[1] == 'f' {
        Some(('\u{c}', 2))
    } else if s[1] == 'r' {
        Some(('\r', 2))
    } else if s[1] == 'u' && s.len() >= 6 && all_digits(s.subrange(2, 6), 16) && !(0xd800
        <= value_of(s.subrange(2, 6), 16) < 0xe000) {
        Some((value_of(s.subrange(2, 6), 16) as char, 6))
    } else {
        None
    }
}

/// The text up to the closing quote, and what follows that.
pub open spec fn quoted_rest(s: Seq<char>) -> Option<(Seq<char>, Seq<char>)>
    decreases s.len(),
{
    if s.len() == 0 {
        None
    } else if s[0] == '"' {
        Some((Seq::empty(), s.skip(1)))
    } else {
        match quoted_char(s) {
            Some((c, n)) => if 1 <= n <= s.len() {
                match quoted_rest(s.skip(n)) {
                    Some((text, rest)) => Some((seq![c] + text, rest)),
                    None => None,
                }
            } else {
                None
            },
            None => None,
        }
    }
}

/// The quoted text at the beginning, and what follows it.
pub open spec fn quoted_text(s: Seq<char>) -> Option<(Seq<char>, Seq<char>)> {
    if s.len() > 0 && s[0] == '"' {
        quoted_rest(s.skip(1))
    } else {
        None
    }
}

/// Quoted texts with commas between them up to the closing bracket, and what follows that.
pub open spec fn quoted_items(s: Seq<char>) -> Option<(Seq<Seq<char>>, Seq<char>)>
    decreases s.len(),
{
    match quoted_text(s) {
        Some((text, rest)) => if rest.len() > 0 && rest[0] == ']' {
            Some((seq![text], rest.skip(1)))
        } else if 2 <= rest.len() < s.len() && begins_with(rest, ", "@) {
            match quoted_items(rest.skip(2)) {
                Some((texts, end)) => Some((seq![text] + texts, end)),
                None => None,
            }
        } else {
            None
        },
        None => None,
    }
}

/// The list of quoted texts at the beginning, and what follows it.
pub open spec fn quoted_list(s: Seq<char>) -> Option<(Seq<Seq<char>>, Seq<char>)> {
    if s.len() < 2 || s[0] != '[' {
        None
    } else if s[1] == ']' {
        Some((Seq::empty(), s.skip(2)))
    } else {
        quoted_items(s.skip(1))
    }
}

/// Whether nothing but a comment is left of a line.
pub open spec fn is_spent(s: Seq<char>) -> bool {
    s.len() == 0 || begins_with(s, " #"@)
}

/// The text that a value is.
pub open spec fn text_value(value: Option<Seq<char>>) -> Option<Seq<char>> {
    match value {
        Some(s) => match quoted_text(s) {
            Some((text, rest)) => if is_spent(rest) {
                Some(text)
            } else {
                None
            },
            None => None,
        },
        None => None,
    }
}

/// The list of texts that a value is.
pub open spec fn list_value(value: Option<Seq<char>>) -> Option<Seq<Seq<char>>> {
    match value {
        Some(s) => match quoted_list(s) {
            Some((texts, rest)) => if is_spent(rest) {
                Some(texts)
            } else {
                None
            },
            None => None,
        },
        None => None,
    }
}

/// The number that a value is.
pub open spec fn number_value(value: Option<Seq<char>>) -> Option<int> {
    match value {
        Some(s) => number_in(s, 10, u64::MAX as int),
        None => None,
    }
}

/// How long the first line is.
pub open spec fn line_len(s: Seq<char>) -> int
    decreases s.len(),
{
    if s.len() == 0 || s[0] == '\n' {
        0
    } else {
        1 + line_len(s.skip(1))
    }
}

/// The value of a key in a table, read line by line. `inside` says whether the lines before were in
/// the table.
pub open spec fn setting_in(s: Seq<char>, inside: bool, table: Seq<char>, key: Seq<char>) -> Option<
    Seq<char>,
>
    decreases s.len(),
{
    let n = line_len(s);
    if s.len() == 0 || n < 0 {
        None
    } else {
        let line = s.take(n);
        let rest = if n < s.len() {
            s.skip(n + 1)
        } else {
            Seq::empty()
        };
        if line.len() == 0 || line[0] == '#' {
            setting_in(rest, inside, table, key)
        } else if line[0] == '[' {
            setting_in(rest, line == "["@ + table + "]"@, table, key)
        } else if inside && begins_with(line, key + " = "@) {
            Some(line.skip(key.len() as int + 3))
        } else {
            setting_in(rest, inside, table, key)
        }
    }
}

/// The value of a key in a table of a whole text.
pub open spec fn setting_of(text: Seq<char>, table: Seq<char>, key: Seq<char>) -> Option<
    Seq<char>,
> {
    setting_in(text, false, table, key)
}

pub open spec fn is_on_one_line(s: Seq<char>) -> bool {
    forall|i: int| 0 <= i < s.len() ==> #[trigger] s[i] != '\n'
}

/// Whether a text is one line with its end.
pub open spec fn is_line(t: Seq<char>) -> bool {
    t.len() > 0 && t.last() == '\n' && is_on_one_line(t.drop_last())
}

proof fn lemma_line_len(t: Seq<char>, rest: Seq<char>)
    requires
        is_line(t),
    ensures
        line_len(t + rest) == t.len() - 1,
    decreases t.len(),
{
    let s = t + rest;
    if t.len() > 1 {
        assert(t.drop_last()[0] != '\n');
        let u = t.skip(1);
        assert(u.drop_last() =~= t.drop_last().skip(1));
        assert forall|i: int| 0 <= i < u.drop_last().len() implies #[trigger] u.drop_last()[i]
            != '\n' by {
            assert(t.drop_last()[i + 1] != '\n');
        }
        lemma_line_len(u, rest);
        assert(s.skip(1) =~= u + rest);
    }
}

/// One line is read, and the reading goes on behind it.
proof fn lemma_first_line(
    t: Seq<char>,
    rest: Seq<char>,
    inside: bool,
    table: Seq<char>,
    key: Seq<char>,
)
    requires
        is_line(t),
    ensures
        ({
            let line = t.drop_last();
            setting_in(t + rest, inside, table, key) == if line.len() == 0 || line[0] == '#' {
                setting_in(rest, inside, table, key)
            } else if line[0] == '[' {
                setting_in(rest, line == "["@ + table + "]"@, table, key)
            } else if inside && begins_with(line, key + " = "@) {
                Some(line.skip(key.len() as int + 3))
            } else {
                setting_in(rest, inside, table, key)
            }
        }),
{
    lemma_line_len(t, rest);
    let s = t + rest;
    let n = line_len(s);
    assert(s.take(n) =~= t.drop_last());
    assert(s.skip(n + 1) =~= rest);
}

/// A line that is a comment, or blank, or sets another key is passed over.
proof fn lemma_passed(
    t: Seq<char>,
    rest: Seq<char>,
    inside: bool,
    table: Seq<char>,
    key: Seq<char>,
)
    requires
        is_line(t),
        key.len() > 0,
        t.len() == 1 || t[0] == '#' || (t[0] != '[' && (!inside || t[0] != key[0])),
    ensures
        setting_in(t + rest, inside, table, key) == setting_in(rest, inside, table, key),
{
    lemma_first_line(t, rest, inside, table, key);
    let line = t.drop_last();
    if line.len() > 0 && inside && begins_with(line, key + " = "@) {
        assert(line.subrange(0, (key + " = "@).len() as int)[0] == (key + " = "@)[0]);
    }
}

/// A line that sets the key gives its value.
proof fn lemma_set(value: Seq<char>, rest: Seq<char>, table: Seq<char>, key: Seq<char>)
    requires
        is_on_one_line(key),
        is_on_one_line(value),
        key.len() > 0,
        key[0] != '#',
        key[0] != '[',
    ensures
        setting_in(key + " = "@ + value + "\n"@ + rest, true, table, key) == Some(value),
{
    reveal_strlit(" = ");
    reveal_strlit("\n");
    let t = key + " = "@ + value + "\n"@;
    let line = t.drop_last();
    assert(line =~= key + " = "@ + value);
    assert(is_line(t));
    lemma_first_line(t, rest, true, table, key);
    assert(line.subrange(0, (key + " = "@).len() as int) =~= key + " = "@);
    assert(line.skip(key.len() as int + 3) =~= value);
}

/// Four digits of a number below 32.
proof fn lemma_low_code(digits: Seq<char>, n: int)
    requires
        0 <= n < 32,
        digits == seq!['0', '0', digit_char(n / 16), digit_char(n % 16)],
    ensures
        all_digits(digits, 16),
        value_of(digits, 16) == n,
{
    assert(digit_value(digit_char(n / 16), 16) == Some(n / 16));
    assert(digit_value(digit_char(n % 16), 16) == Some(n % 16));
    assert(digit_value('0', 16) == Some(0int));
    let three = digits.drop_last();
    let two = three.drop_last();
    let one = two.drop_last();
    assert(one.drop_last().len() == 0);
    assert(value_of(one.drop_last(), 16) == 0);
    assert(value_of(one, 16) == 0);
    assert(value_of(two, 16) == 0);
    assert(value_of(three, 16) == n / 16);
}

/// A character is read as it was written.
proof fn lemma_char_read(c: char, rest: Seq<char>)
    requires
        c != '\u{7f}',
    ensures
        (escaped_char(c) + rest)[0] != '"',
        quoted_char(escaped_char(c) + rest) == Some((c, escaped_char(c).len() as int)),
{
    let e = escaped_char(c);
    let s = e + rest;
    assert(s[0] == e[0]);
    if e.len() >= 2 {
        assert(s[1] == e[1]);
        if e[1] == 'u' {
            assert(s.subrange(2, 6) =~= seq![
                '0',
                '0',
                digit_char(c as u32 as int / 16),
                digit_char(c as u32 as int % 16),
            ]);
            lemma_low_code(s.subrange(2, 6), c as u32 as int);
            assert(c as u32 as int as char == c);
        }
    }
}

/// Whether a text can be quoted: all control characters but one are escaped.
pub open spec fn is_quotable(s: Seq<char>) -> bool {
    forall|i: int| 0 <= i < s.len() ==> #[trigger] s[i] != '\u{7f}'
}

proof fn lemma_rest_read(s: Seq<char>, i: int, rest: Seq<char>)
    requires
        0 <= i <= s.len(),
        is_quotable(s),
    ensures
        quoted_rest(escaped_from(s, i) + seq!['"'] + rest) == Some((s.skip(i), rest)),
    decreases s.len() - i,
{
    let all = escaped_from(s, i) + seq!['"'] + rest;
    if i < s.len() {
        let more = escaped_from(s, i + 1) + seq!['"'] + rest;
        let e = escaped_char(s[i]);
        assert(all =~= e + more);
        lemma_rest_read(s, i + 1, rest);
        lemma_char_read(s[i], more);
        assert(all.skip(e.len() as int) =~= more);
        assert(seq![s[i]] + s.skip(i + 1) =~= s.skip(i));
    } else {
        assert(all.skip(1) =~= rest);
        assert(s.skip(i) =~= Seq::<char>::empty());
    }
}

/// A text that was written in quotes reads back, and the reading ends at its closing quote.
pub proof fn law_written_texts_read_back(s: Seq<char>, rest: Seq<char>)
    requires
        is_quotable(s),
    ensures
        quoted_text(string_text(s) + rest) == Some((s, rest)),
{
    lemma_escaped_from(s, 0);
    let all = string_text(s) + rest;
    lemma_rest_read(s, 0, rest);
    assert(all.skip(1) =~= escaped_from(s, 0) + seq!['"'] + rest);
    assert(s.skip(0) =~= s);
}

pub open spec fn are_quotable(list: Seq<Seq<char>>) -> bool {
    forall|i: int| 0 <= i < list.len() ==> is_quotable(#[trigger] list[i])
}

proof fn lemma_items_read(list: Seq<Seq<char>>, i: int, rest: Seq<char>)
    requires
        0 <= i < list.len(),
        are_quotable(list),
    ensures
        quoted_items(string_text(list[i]) + items_from(list, i + 1) + "]"@ + rest) == Some(
            (list.skip(i), rest),
        ),
    decreases list.len() - i,
{
    reveal_strlit("]");
    reveal_strlit(", ");
    let all = string_text(list[i]) + items_from(list, i + 1) + "]"@ + rest;
    let tail = items_from(list, i + 1) + "]"@ + rest;
    assert(all =~= string_text(list[i]) + tail);
    law_written_texts_read_back(list[i], tail);
    if i + 1 < list.len() {
        let more = string_text(list[i + 1]) + items_from(list, i + 2) + "]"@ + rest;
        assert(tail =~= ", "@ + more);
        assert(tail.subrange(0, 2) =~= ", "@);
        assert(tail.skip(2) =~= more);
        lemma_items_read(list, i + 1, rest);
        assert(seq![list[i]] + list.skip(i + 1) =~= list.skip(i));
    } else {
        assert(items_from(list, i + 1) =~= Seq::<char>::empty());
        assert(tail.skip(1) =~= rest);
        assert(list.skip(i) =~= seq![list[i]]);
    }
}

/// A list that was written reads back, and the reading ends at its closing bracket.
pub proof fn law_written_lists_read_back(list: Seq<Seq<char>>, rest: Seq<char>)
    requires
        are_quotable(list),
    ensures
        quoted_list(array_text(list) + rest) == Some((list, rest)),
{
    reveal_strlit("[");
    reveal_strlit("]");
    lemma_items_from(list, 0);
    let all = array_text(list) + rest;
    let inner = items_from(list, 0) + "]"@ + rest;
    assert(all =~= "["@ + inner);
    assert(all.skip(1) =~= inner);
    assert(all[1] == inner[0]);
    if list.len() > 0 {
        assert(inner[0] == '"');
        lemma_items_read(list, 0, rest);
        assert(list.skip(0) =~= list);
    } else {
        assert(inner[0] == ']');
        assert(all.skip(2) =~= rest);
        assert(list =~= Seq::<Seq<char>>::empty());
    }
}

proof fn lemma_escapes_on_one_line(s: Seq<char>, i: int)
    requires
        0 <= i,
    ensures
        is_on_one_line(escaped_from(s, i)),
    decreases s.len() - i,
{
    if i < s.len() {
        lemma_escapes_on_one_line(s, i + 1);
        let c = s[i];
        if (c as u32) < 32 {
            assert(digit_char(c as u32 as int / 16) != '\n');
            assert(digit_char(c as u32 as int % 16) != '\n');
        }
        assert(is_on_one_line(escaped_char(c)));
    }
}

proof fn lemma_text_on_one_line(s: Seq<char>)
    ensures
        is_on_one_line(string_text(s)),
{
    lemma_escapes_on_one_line(s, 0);
    lemma_escaped_from(s, 0);
}

proof fn lemma_items_on_one_line(list: Seq<Seq<char>>, i: int)
    requires
        0 <= i,
    ensures
        is_on_one_line(items_from(list, i)),
    decreases list.len() - i,
{
    reveal_strlit(", ");
    if i < list.len() {
        lemma_items_on_one_line(list, i + 1);
        lemma_text_on_one_line(list[i]);
    }
}

proof fn lemma_list_on_one_line(list: Seq<Seq<char>>)
    ensures
        is_on_one_line(array_text(list)),
{
    reveal_strlit("[");
    reveal_strlit("]");
    lemma_items_on_one_line(list, 0);
    lemma_items_from(list, 0);
}

proof fn lemma_note_on_one_line(note: Seq<char>, from: int)
    requires
        0 <= from,
    ensures
        is_on_one_line(replaced_from(note, "\n"@, " "@, from)),
    decreases note.len() - from,
{
    reveal_strlit("\n");
    reveal_strlit(" ");
    if from < note.len() {
        lemma_note_on_one_line(note, from + 1);
        if note[from] == '\n' {
            assert(note.subrange(from, from + 1) =~= "\n"@);
        }
    }
}

/// The comments of notes are passed over.
proof fn lemma_notes_passed(
    notes: Seq<Seq<char>>,
    n: int,
    rest: Seq<char>,
    table: Seq<char>,
    key: Seq<char>,
)
    requires
        0 <= n <= notes.len(),
        key.len() > 0,
    ensures
        setting_in(note_comments(notes, n) + rest, false, table, key) == setting_in(
            rest,
            false,
            table,
            key,
        ),
    decreases n,
{
    if n > 0 {
        reveal_strlit("# Note: ");
        reveal_strlit("\n");
        let t = "# Note: "@ + replaced(notes[n - 1], "\n"@, " "@) + "\n"@;
        lemma_note_on_one_line(notes[n - 1], 0);
        assert(t.drop_last() =~= "# Note: "@ + replaced(notes[n - 1], "\n"@, " "@));
        assert(note_comments(notes, n) + rest =~= note_comments(notes, n - 1) + (t + rest));
        lemma_notes_passed(notes, n - 1, t + rest, table, key);
        lemma_passed(t, rest, false, table, key);
    } else {
        assert(note_comments(notes, n) + rest =~= rest);
    }
}

/// The head of a configuration is passed over: what follows is in the table of the build.
proof fn lemma_head_passed(plan: InitPlanView, rest: Seq<char>, table: Seq<char>, key: Seq<char>)
    requires
        is_on_one_line(plan.detected_project),
        key.len() > 0,
    ensures
        setting_in(head_text(plan) + rest, false, table, key) == setting_in(
            rest,
            "[build]"@ == "["@ + table + "]"@,
            table,
            key,
        ),
{
    let first =
        "# Generated by reprobisect init. Review build.image, build.command, and build.outputs before the first check.\n"@;
    let second = "# Detected project: "@ + plan.detected_project + " ("@ + detection_label(
        plan.confidence,
    ) + " confidence)\n"@;
    let notes = note_comments(plan.notes, plan.notes.len() as int);
    let blank = "\n"@;
    let header = "[build]\n"@;
    assert(is_line(first) && first[0] == '#') by {
        reveal_strlit(
            "# Generated by reprobisect init. Review build.image, build.command, and build.outputs before the first check.\n",
        );
    }
    lemma_detection_line(plan);
    reveal_strlit("\n");
    reveal_strlit("[build]\n");
    reveal_strlit("[build]");
    reveal_strlit("\n[build]\n");
    assert("\n[build]\n"@ =~= blank + header);
    let r4 = header + rest;
    let r3 = blank + r4;
    let r2 = notes + r3;
    let r1 = second + r2;
    assert(head_text(plan) + rest =~= first + r1);
    lemma_passed(first, r1, false, table, key);
    lemma_passed(second, r2, false, table, key);
    lemma_notes_passed(plan.notes, plan.notes.len() as int, r3, table, key);
    lemma_passed(blank, r4, false, table, key);
    assert(header.drop_last() =~= "[build]"@);
    lemma_first_line(header, rest, false, table, key);
}

proof fn lemma_detection_line(plan: InitPlanView)
    requires
        is_on_one_line(plan.detected_project),
    ensures
        ({
            let t = "# Detected project: "@ + plan.detected_project + " ("@ + detection_label(
                plan.confidence,
            ) + " confidence)\n"@;
            is_line(t) && t[0] == '#'
        }),
{
    reveal_strlit("# Detected project: ");
    reveal_strlit(" (");
    reveal_strlit("high");
    reveal_strlit("medium");
    reveal_strlit("low");
    reveal_strlit(" confidence)\n");
}

/// The lines that end every configuration.
pub open spec fn last_lines() -> Seq<char> {
    "timeout_seconds = 600\n"@ + ("log_capture_max_bytes = 1048576\n"@ + ("\n"@ + (
    "[experiments]\n"@ + ("control_runs = 2\n"@ + EXPERIMENTS_TEMPLATE@))))
}

/// A line that sets a key.
pub open spec fn setting_line(key: Seq<char>, value: Seq<char>) -> Seq<char> {
    key + " = "@ + value + "\n"@
}

proof fn lemma_setting_line(key: Seq<char>, value: Seq<char>)
    requires
        is_on_one_line(key),
        is_on_one_line(value),
        key.len() > 0,
    ensures
        is_line(setting_line(key, value)),
        setting_line(key, value)[0] == key[0],
{
    reveal_strlit(" = ");
    reveal_strlit("\n");
    assert(setting_line(key, value).drop_last() =~= key + " = "@ + value);
}

/// The lines of a configuration behind its head.
pub open spec fn body_lines(plan: InitPlanView, runner: RunnerBackend) -> Seq<char> {
    runner_line(runner) + (setting_line("image"@, string_text(plan.image)) + (setting_line(
        "command"@,
        array_text(plan.command),
    ) + (setting_line("outputs"@, array_text(plan.outputs)) + last_lines())))
}

proof fn lemma_regrouped(
    a: Seq<char>,
    b: Seq<char>,
    c: Seq<char>,
    d: Seq<char>,
    e: Seq<char>,
    f: Seq<char>,
    g: Seq<char>,
    h: Seq<char>,
    end: Seq<char>,
    last: Seq<char>,
)
    requires
        b == "image"@ + " = "@,
        d == "\n"@ + "command"@ + " = "@,
        f == "\n"@ + "outputs"@ + " = "@,
        h + end == "\n"@ + last,
    ensures
        a + b + c + d + e + f + g + h + end == a + ("image"@ + " = "@ + c + "\n"@ + ("command"@
            + " = "@ + e + "\n"@ + ("outputs"@ + " = "@ + g + "\n"@ + last))),
{
    assert(a + b + c + d + e + f + g + h + end =~= a + b + c + d + e + f + g + (h + end));
    assert(a + b + c + d + e + f + g + ("\n"@ + last) =~= a + ("image"@ + " = "@ + c + "\n"@ + (
    "command"@ + " = "@ + e + "\n"@ + ("outputs"@ + " = "@ + g + "\n"@ + last))));
}

/// A configuration is its head and its lines.
proof fn lemma_config_lines(plan: InitPlanView, runner: RunnerBackend)
    ensures
        config_text(plan, runner) == head_text(plan) + body_lines(plan, runner),
{
    reveal_strlit("\n");
    reveal_strlit(" = ");
    reveal_strlit("image");
    reveal_strlit("command");
    reveal_strlit("outputs");
    reveal_strlit("image = ");
    reveal_strlit("\ncommand = ");
    reveal_strlit("\noutputs = ");
    assert("image = "@ =~= "image"@ + " = "@);
    assert("\ncommand = "@ =~= "\n"@ + "command"@ + " = "@);
    assert("\noutputs = "@ =~= "\n"@ + "outputs"@ + " = "@);
    let middle = "\ntimeout_seconds = 600\nlog_capture_max_bytes = 1048576\n\n"@;
    let end = "[experiments]\ncontrol_runs = 2\n"@ + EXPERIMENTS_TEMPLATE@;
    lemma_last_lines();
    lemma_regrouped(
        runner_line(runner),
        "image = "@,
        string_text(plan.image),
        "\ncommand = "@,
        array_text(plan.command),
        "\noutputs = "@,
        array_text(plan.outputs),
        middle,
        end,
        last_lines(),
    );
    assert(values_text(plan, runner) + middle + end == body_lines(plan, runner));
    assert(config_text(plan, runner) =~= head_text(plan) + (values_text(plan, runner) + middle
        + end));
}

proof fn lemma_last_lines()
    ensures
        "\ntimeout_seconds = 600\nlog_capture_max_bytes = 1048576\n\n"@ + (
        "[experiments]\ncontrol_runs = 2\n"@ + EXPERIMENTS_TEMPLATE@) == "\n"@ + last_lines(),
{
    reveal_strlit("\n");
    reveal_strlit("timeout_seconds = 600\n");
    reveal_strlit("log_capture_max_bytes = 1048576\n");
    reveal_strlit("[experiments]\n");
    reveal_strlit("control_runs = 2\n");
    reveal_strlit("\ntimeout_seconds = 600\nlog_capture_max_bytes = 1048576\n\n");
    reveal_strlit("[experiments]\ncontrol_runs = 2\n");
    assert("\ntimeout_seconds = 600\nlog_capture_max_bytes = 1048576\n\n"@ =~= "\n"@
        + "timeout_seconds = 600\n"@ + "log_capture_max_bytes = 1048576\n"@ + "\n"@);
    assert("[experiments]\ncontrol_runs = 2\n"@ =~= "[experiments]\n"@ + "control_runs = 2\n"@);
    let a = "timeout_seconds = 600\n"@;
    let b = "log_capture_max_bytes = 1048576\n"@;
    let c = "[experiments]\n"@;
    let d = "control_runs = 2\n"@;
    let n = "\n"@;
    let t = EXPERIMENTS_TEMPLATE@;
    assert(n + a + b + n + (c + d + t) =~= n + (a + (b + (n + (c + (d + t))))));
}

/// What a plan must be for its configuration to read back: its description stands on one line, and
/// its values can be quoted.
pub open spec fn is_renderable(plan: InitPlanView) -> bool {
    &&& is_on_one_line(plan.detected_project)
    &&& is_quotable(plan.image)
    &&& are_quotable(plan.command)
    &&& are_quotable(plan.outputs)
}

/// What stands behind the name of the runner in its line.
pub open spec fn runner_comment(runner: RunnerBackend) -> Seq<char> {
    match runner {
        RunnerBackend::Docker => " # or \"podman\""@,
        RunnerBackend::Podman => " # or \"docker\""@,
    }
}

proof fn lemma_runner_line(runner: RunnerBackend)
    ensures
        runner_line(runner) == setting_line(
            "runner"@,
            string_text(runner_executable(runner)) + runner_comment(runner),
        ),
        is_on_one_line(string_text(runner_executable(runner)) + runner_comment(runner)),
        is_quotable(runner_executable(runner)),
        is_spent(runner_comment(runner)),
{
    reveal_strlit("\n");
    reveal_strlit(" = ");
    reveal_strlit(" #");
    reveal_strlit("runner");
    reveal_strlit("docker");
    reveal_strlit("podman");
    reveal_strlit(" # or \"podman\"");
    reveal_strlit(" # or \"docker\"");
    reveal_strlit("runner = \"docker\" # or \"podman\"\n");
    reveal_strlit("runner = \"podman\" # or \"docker\"\n");
    lemma_text_on_one_line(runner_executable(runner));
    assert(runner_comment(runner).subrange(0, 2) =~= " #"@);
    lemma_plain_text(runner_executable(runner));
    assert(runner_line(runner) =~= setting_line(
        "runner"@,
        string_text(runner_executable(runner)) + runner_comment(runner),
    ));
}

/// Letters are quoted as they are.
proof fn lemma_plain_text(s: Seq<char>)
    requires
        forall|i: int| 0 <= i < s.len() ==> 'a' <= #[trigger] s[i] <= 'z',
    ensures
        string_text(s) == seq!['"'] + s + seq!['"'],
{
    lemma_plain_escaped(s, s.len() as int);
    assert(s.take(s.len() as int) =~= s);
}

proof fn lemma_plain_escaped(s: Seq<char>, n: int)
    requires
        0 <= n <= s.len(),
        forall|i: int| 0 <= i < s.len() ==> 'a' <= #[trigger] s[i] <= 'z',
    ensures
        escaped(s, n) == s.take(n),
    decreases n,
{
    if n > 0 {
        lemma_plain_escaped(s, n - 1);
        assert('a' <= s[n - 1] <= 'z');
        assert(escaped_char(s[n - 1]) =~= seq![s[n - 1]]);
        assert(s.take(n) =~= s.take(n - 1) + seq![s[n - 1]]);
    } else {
        assert(s.take(n) =~= Seq::<char>::empty());
    }
}

/// The lines with the values of the plan set keys that start as they do.
proof fn lemma_plan_lines(plan: InitPlanView, runner: RunnerBackend)
    ensures
        is_line(runner_line(runner)),
        runner_line(runner)[0] == 'r',
        is_line(setting_line("image"@, string_text(plan.image))),
        setting_line("image"@, string_text(plan.image))[0] == 'i',
        is_line(setting_line("command"@, array_text(plan.command))),
        setting_line("command"@, array_text(plan.command))[0] == 'c',
        is_line(setting_line("outputs"@, array_text(plan.outputs))),
        setting_line("outputs"@, array_text(plan.outputs))[0] == 'o',
        is_on_one_line("image"@),
        is_on_one_line("command"@),
        is_on_one_line("outputs"@),
        is_on_one_line("runner"@),
{
    reveal_strlit("image");
    reveal_strlit("command");
    reveal_strlit("outputs");
    reveal_strlit("runner");
    lemma_runner_line(runner);
    lemma_text_on_one_line(plan.image);
    lemma_list_on_one_line(plan.command);
    lemma_list_on_one_line(plan.outputs);
    lemma_setting_line(
        "runner"@,
        string_text(runner_executable(runner)) + runner_comment(runner),
    );
    lemma_setting_line("image"@, string_text(plan.image));
    lemma_setting_line("command"@, array_text(plan.command));
    lemma_setting_line("outputs"@, array_text(plan.outputs));
}

proof fn lemma_passed_to_command(
    plan: InitPlanView,
    runner: RunnerBackend,
    inside: bool,
    table: Seq<char>,
    key: Seq<char>,
)
    requires
        key.len() > 0,
        !inside || (key[0] != 'r' && key[0] != 'i'),
    ensures
        setting_in(body_lines(plan, runner), inside, table, key) == setting_in(
            setting_line("command"@, array_text(plan.command)) + (setting_line(
                "outputs"@,
                array_text(plan.outputs),
            ) + last_lines()),
            inside,
            table,
            key,
        ),
{
    lemma_plan_lines(plan, runner);
    let t4 = setting_line("outputs"@, array_text(plan.outputs)) + last_lines();
    let t3 = setting_line("command"@, array_text(plan.command)) + t4;
    let t2 = setting_line("image"@, string_text(plan.image)) + t3;
    lemma_passed(runner_line(runner), t2, inside, table, key);
    lemma_passed(setting_line("image"@, string_text(plan.image)), t3, inside, table, key);
}

proof fn lemma_passed_to_last(
    plan: InitPlanView,
    runner: RunnerBackend,
    inside: bool,
    table: Seq<char>,
    key: Seq<char>,
)
    requires
        key.len() > 0,
        !inside || (key[0] != 'r' && key[0] != 'i' && key[0] != 'c' && key[0] != 'o'),
    ensures
        setting_in(body_lines(plan, runner), inside, table, key) == setting_in(
            last_lines(),
            inside,
            table,
            key,
        ),
{
    lemma_passed_to_command(plan, runner, inside, table, key);
    lemma_plan_lines(plan, runner);
    let t4 = setting_line("outputs"@, array_text(plan.outputs)) + last_lines();
    lemma_passed(setting_line("command"@, array_text(plan.command)), t4, inside, table, key);
    lemma_passed(
        setting_line("outputs"@, array_text(plan.outputs)),
        last_lines(),
        inside,
        table,
        key,
    );
}

/// The values of the plan are read in the lines of a configuration.
proof fn lemma_plan_read(plan: InitPlanView, runner: RunnerBackend)
    requires
        is_renderable(plan),
    ensures
        ({
            let body = body_lines(plan, runner);
            &&& text_value(setting_in(body, true, "build"@, "runner"@)) == Some(
                runner_executable(runner),
            )
            &&& text_value(setting_in(body, true, "build"@, "image"@)) == Some(plan.image)
            &&& list_value(setting_in(body, true, "build"@, "command"@)) == Some(plan.command)
            &&& list_value(setting_in(body, true, "build"@, "outputs"@)) == Some(plan.outputs)
        }),
{
    lemma_plan_lines(plan, runner);
    lemma_runner_line(runner);
    reveal_strlit("image");
    reveal_strlit("command");
    reveal_strlit("outputs");
    reveal_strlit("runner");
    let none = Seq::<char>::empty();
    let t4 = setting_line("outputs"@, array_text(plan.outputs)) + last_lines();
    let t3 = setting_line("command"@, array_text(plan.command)) + t4;
    let t2 = setting_line("image"@, string_text(plan.image)) + t3;
    let name = string_text(runner_executable(runner)) + runner_comment(runner);
    lemma_set(name, t2, "build"@, "runner"@);
    law_written_texts_read_back(runner_executable(runner), runner_comment(runner));
    lemma_text_on_one_line(plan.image);
    lemma_passed(runner_line(runner), t2, true, "build"@, "image"@);
    lemma_set(string_text(plan.image), t3, "build"@, "image"@);
    law_written_texts_read_back(plan.image, none);
    assert(string_text(plan.image) + none =~= string_text(plan.image));
    lemma_list_on_one_line(plan.command);
    lemma_passed_to_command(plan, runner, true, "build"@, "command"@);
    lemma_set(array_text(plan.command), t4, "build"@, "command"@);
    law_written_lists_read_back(plan.command, none);
    assert(array_text(plan.command) + none =~= array_text(plan.command));
    lemma_list_on_one_line(plan.outputs);
    lemma_passed_to_command(plan, runner, true, "build"@, "outputs"@);
    lemma_passed(
        setting_line("command"@, array_text(plan.command)),
        t4,
        true,
        "build"@,
        "outputs"@,
    );
    lemma_set(array_text(plan.outputs), last_lines(), "build"@, "outputs"@);
    law_written_lists_read_back(plan.outputs, none);
    assert(array_text(plan.outputs) + none =~= array_text(plan.outputs));
}

/// The last lines set the time limit of a build and the number of control runs.
proof fn lemma_last_read()
    ensures
        setting_in(last_lines(), true, "build"@, "timeout_seconds"@) == Some("600"@),
        setting_in(last_lines(), false, "experiments"@, "control_runs"@) == Some("2"@),
{
    reveal_strlit("\n");
    reveal_strlit(" = ");
    reveal_strlit("[");
    reveal_strlit("]");
    reveal_strlit("600");
    reveal_strlit("2");
    reveal_strlit("timeout_seconds");
    reveal_strlit("control_runs");
    reveal_strlit("experiments");
    reveal_strlit("timeout_seconds = 600\n");
    reveal_strlit("log_capture_max_bytes = 1048576\n");
    reveal_strlit("[experiments]\n");
    reveal_strlit("control_runs = 2\n");
    let a = "timeout_seconds = 600\n"@;
    let b = "log_capture_max_bytes = 1048576\n"@;
    let c = "[experiments]\n"@;
    let d = "control_runs = 2\n"@;
    let t4 = d + EXPERIMENTS_TEMPLATE@;
    let t3 = c + t4;
    let t2 = "\n"@ + t3;
    let t1 = b + t2;
    assert(a =~= setting_line("timeout_seconds"@, "600"@));
    lemma_set("600"@, t1, "build"@, "timeout_seconds"@);
    let table = "experiments"@;
    let key = "control_runs"@;
    lemma_passed(a, t1, false, table, key);
    lemma_passed(b, t2, false, table, key);
    lemma_passed("\n"@, t3, false, table, key);
    lemma_first_line(c, t4, false, table, key);
    assert(c.drop_last() =~= "["@ + table + "]"@);
    assert(d =~= setting_line(key, "2"@));
    lemma_set("2"@, EXPERIMENTS_TEMPLATE@, table, key);
}

/// A rendered configuration reads back: the build has the runner, the image, the command and the
/// outputs of the plan and 600 seconds of time, and the experiments have two control runs. Left out
/// are plans whose description breaks its line, or with a value that holds the delete character,
/// which quotes do not escape.
pub proof fn law_rendered_config_reads_back(plan: InitPlanView, runner: RunnerBackend)
    requires
        is_renderable(plan),
    ensures
        ({
            let text = config_text(plan, runner);
            &&& text_value(setting_of(text, "build"@, "runner"@)) == Some(
                runner_executable(runner),
            )
            &&& text_value(setting_of(text, "build"@, "image"@)) == Some(plan.image)
            &&& list_value(setting_of(text, "build"@, "command"@)) == Some(plan.command)
            &&& list_value(setting_of(text, "build"@, "outputs"@)) == Some(plan.outputs)
            &&& number_value(setting_of(text, "build"@, "timeout_seconds"@)) == Some(600int)
            &&& number_value(setting_of(text, "experiments"@, "control_runs"@)) == Some(2int)
        }),
{
    let body = body_lines(plan, runner);
    lemma_config_lines(plan, runner);
    lemma_tables();
    lemma_head_passed(plan, body, "build"@, "runner"@);
    lemma_head_passed(plan, body, "build"@, "image"@);
    lemma_head_passed(plan, body, "build"@, "command"@);
    lemma_head_passed(plan, body, "build"@, "outputs"@);
    lemma_head_passed(plan, body, "build"@, "timeout_seconds"@);
    lemma_head_passed(plan, body, "experiments"@, "control_runs"@);
    lemma_plan_read(plan, runner);
    lemma_passed_to_last(plan, runner, true, "build"@, "timeout_seconds"@);
    lemma_passed_to_last(plan, runner, false, "experiments"@, "control_runs"@);
    lemma_last_read();
    lemma_numbers();
}

proof fn lemma_tables()
    ensures
        "[build]"@ == "["@ + "build"@ + "]"@,
        "[build]"@ != "["@ + "experiments"@ + "]"@,
        "runner"@.len() > 0,
        "image"@.len() > 0,
        "command"@.len() > 0,
        "outputs"@.len() > 0,
        "timeout_seconds"@.len() > 0,
        "timeout_seconds"@[0] == 't',
        "control_runs"@.len() > 0,
{
    reveal_strlit("[");
    reveal_strlit("]");
    reveal_strlit("build");
    reveal_strlit("[build]");
    reveal_strlit("experiments");
    reveal_strlit("runner");
    reveal_strlit("image");
    reveal_strlit("command");
    reveal_strlit("outputs");
    reveal_strlit("timeout_seconds");
    reveal_strlit("control_runs");
    assert("[build]"@ =~= "["@ + "build"@ + "]"@);
    assert("[build]"@.len() != ("["@ + "experiments"@ + "]"@).len());
}

proof fn lemma_numbers()
    ensures
        number_in("600"@, 10, u64::MAX as int) == Some(600int),
        number_in("2"@, 10, u64::MAX as int) == Some(2int),
{
    reveal_strlit("600");
    reveal_strlit("2");
    reveal_with_fuel(digits_of, 4);
    law_written_numbers_read_back(600, 10, u64::MAX as int);
    law_written_numbers_read_back(2, 10, u64::MAX as int);
    assert(digits_of(600, 10) =~= "600"@);
    assert(digits_of(2, 10) =~= "2"@);
}

} // verus!
