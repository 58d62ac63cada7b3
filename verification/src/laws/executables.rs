//! What the reader of ELF files finds in them.
use vstd::prelude::*;
use vstd::utf8::{encode_utf8, group_utf8_lib};

use crate::artifact::elf::{
    build_id_from, build_id_of, class_of, debug_names, elf_of, elf_summary, endian_of,
    first_build_id, half_at, has_sections, header_at, headers_of, is_elf, long_at, name_at,
    named_sections, section_table, up_to_4, word_at, Endian, NamedSectionView, SectionHeader,
    SectionTable,
};
use crate::bytes::fits;
use crate::digest::hex_of;
use crate::sorting::{law_sorted_set_adds_nothing, Keyed};
use crate::text::begins_with;

verus! {

/// The `size` bytes at `at` as digits of a number to the base 256, the least significant one first or
/// last.
pub open spec fn number(b: Seq<u8>, at: int, size: int, little: bool) -> int
    decreases size,
{
    if size <= 0 {
        0
    } else if little {
        b[at] as int + 256 * number(b, at + 1, size - 1, little)
    } else {
        256 * number(b, at, size - 1, little) + b[at + size - 1] as int
    }
}

/// Numbers of an ELF file are read in the byte order of the file.
pub proof fn law_elf_numbers_have_the_byte_order_of_the_file(b: Seq<u8>, at: int, e: Endian)
    ensures
        half_at(b, at, e) == number(b, at, 2, e is Little),
        word_at(b, at, e) == number(b, at, 4, e is Little),
        long_at(b, at, e) == number(b, at, 8, e is Little),
{
    reveal_with_fuel(number, 9);
}

/// Whether bytes begin as an ELF file of 64 (or 32) bits with the byte order `little`.
pub open spec fn begins_as_elf(b: Seq<u8>, wide: bool, little: bool) -> bool {
    &&& b.len() >= (if wide {
        64int
    } else {
        52int
    })
    &&& b[0] == 0x7f && b[1] == 'E' as u8 && b[2] == 'L' as u8 && b[3] == 'F' as u8
    &&& b[4] == (if wide {
        2u8
    } else {
        1u8
    })
    &&& b[5] == (if little {
        1u8
    } else {
        2u8
    })
}

/// An ELF file is read only where it says what it is: with its magic, its class and its byte order. The
/// section table is where the header of its class says.
pub proof fn law_elf_headers_tell_the_section_table(b: Seq<u8>, wide: bool, little: bool)
    requires
        begins_as_elf(b, wide, little),
    ensures
        is_elf(b),
        endian_of(b) is Little <==> little,
        class_of(b) is Elf64 <==> wide,
        ({
            let t = section_table(b);
            if wide {
                &&& fits(number(b, 40, 8, little)) <==> t is Some
                &&& t is Some ==> t->0.offset == number(b, 40, 8, little) && t->0.entry_size
                    == number(b, 58, 2, little) && t->0.count == number(b, 60, 2, little)
                    && t->0.names == number(b, 62, 2, little)
            } else {
                &&& t is Some
                &&& t->0.offset == number(b, 32, 4, little) && t->0.entry_size == number(
                    b,
                    46,
                    2,
                    little,
                ) && t->0.count == number(b, 48, 2, little) && t->0.names == number(
                    b,
                    50,
                    2,
                    little,
                )
            }
        }),
{
    reveal_with_fuel(number, 9);
    let e = endian_of(b);
    law_elf_numbers_have_the_byte_order_of_the_file(b, 40, e);
    law_elf_numbers_have_the_byte_order_of_the_file(b, 58, e);
    law_elf_numbers_have_the_byte_order_of_the_file(b, 60, e);
    law_elf_numbers_have_the_byte_order_of_the_file(b, 62, e);
    law_elf_numbers_have_the_byte_order_of_the_file(b, 32, e);
    law_elf_numbers_have_the_byte_order_of_the_file(b, 46, e);
    law_elf_numbers_have_the_byte_order_of_the_file(b, 48, e);
    law_elf_numbers_have_the_byte_order_of_the_file(b, 50, e);
}

/// What does not begin as an ELF file is none.
pub proof fn law_other_files_are_no_elf_files(b: Seq<u8>)
    requires
        forall|wide: bool, little: bool| !#[trigger] begins_as_elf(b, wide, little),
    ensures
        elf_of(b) is None,
        elf_summary(b) is None,
{
    if is_elf(b) && section_table(b) is Some {
        assert(!begins_as_elf(b, b[4] == 2, b[5] == 1));
    }
}

/// A section header tells its name, type, place and size in the fields of its class.
pub proof fn law_section_headers_tell_their_section(b: Seq<u8>, wide: bool, little: bool, base: int)
    requires
        begins_as_elf(b, wide, little),
        0 <= base,
        base + 64 <= b.len(),
        wide ==> fits(number(b, base + 24, 8, little)) && fits(number(b, base + 32, 8, little)),
    ensures
        header_at(b, class_of(b), endian_of(b), base) matches Some(h) && {
            &&& h.name_offset == number(b, base, 4, little)
            &&& h.section_type == number(b, base + 4, 4, little)
            &&& h.file_offset == if wide {
                number(b, base + 24, 8, little)
            } else {
                number(b, base + 16, 4, little)
            }
            &&& h.size == if wide {
                number(b, base + 32, 8, little)
            } else {
                number(b, base + 20, 4, little)
            }
        },
{
    law_elf_headers_tell_the_section_table(b, wide, little);
    let e = endian_of(b);
    law_elf_numbers_have_the_byte_order_of_the_file(b, base, e);
    law_elf_numbers_have_the_byte_order_of_the_file(b, base + 4, e);
    law_elf_numbers_have_the_byte_order_of_the_file(b, base + 16, e);
    law_elf_numbers_have_the_byte_order_of_the_file(b, base + 20, e);
    law_elf_numbers_have_the_byte_order_of_the_file(b, base + 24, e);
    law_elf_numbers_have_the_byte_order_of_the_file(b, base + 32, e);
}

proof fn lemma_headers(b: Seq<u8>, t: SectionTable, n: int)
    requires
        0 <= n,
    ensures
        headers_of(b, class_of(b), endian_of(b), t, n) is Some <==> forall|i: int|
            0 <= i < n ==> #[trigger] header_at(
                b,
                class_of(b),
                endian_of(b),
                t.offset + i * t.entry_size,
            ) is Some,
        headers_of(b, class_of(b), endian_of(b), t, n) matches Some(headers) ==> headers.len() == n
            && forall|i: int|
            0 <= i < n ==> header_at(
                b,
                class_of(b),
                endian_of(b),
                t.offset + i * t.entry_size,
            ) == Some(#[trigger] headers[i]),
    decreases n,
{
    if n > 0 {
        lemma_headers(b, t, n - 1);
        let own = header_at(b, class_of(b), endian_of(b), t.offset + (n - 1) * t.entry_size);
        if headers_of(b, class_of(b), endian_of(b), t, n) is Some {
            let headers = headers_of(b, class_of(b), endian_of(b), t, n)->0;
            let before = headers_of(b, class_of(b), endian_of(b), t, n - 1)->0;
            assert forall|i: int| 0 <= i < n implies header_at(
                b,
                class_of(b),
                endian_of(b),
                t.offset + i * t.entry_size,
            ) == Some(#[trigger] headers[i]) by {
                if i < n - 1 {
                    assert(headers[i] == before[i]);
                }
            }
            assert forall|i: int| 0 <= i < n implies #[trigger] header_at(
                b,
                class_of(b),
                endian_of(b),
                t.offset + i * t.entry_size,
            ) is Some by {
                assert(header_at(b, class_of(b), endian_of(b), t.offset + i * t.entry_size) == Some(
                    headers[i],
                ));
            }
        }
    }
}

/// Whether a header names a section that lies inside the file.
pub open spec fn is_usable(b: Seq<u8>, strings: Seq<u8>, h: SectionHeader) -> bool {
    h.file_offset + h.size <= b.len() && name_at(strings, h.name_offset as int) is Some
}

/// Whether a section is the one that a header describes.
pub open spec fn is_described(strings: Seq<u8>, h: SectionHeader, s: NamedSectionView) -> bool {
    &&& name_at(strings, h.name_offset as int) == Some(s.name)
    &&& s.section_type == h.section_type
    &&& s.file_offset == h.file_offset
    &&& s.size == h.size
}

proof fn lemma_named(b: Seq<u8>, strings: Seq<u8>, headers: Seq<SectionHeader>, n: int)
    requires
        0 <= n <= headers.len(),
    ensures
        forall|j: int|
            0 <= j < named_sections(b, strings, headers, n).len() ==> exists|i: int|
                0 <= i < n && is_usable(b, strings, #[trigger] headers[i]) && is_described(
                    strings,
                    headers[i],
                    #[trigger] named_sections(b, strings, headers, n)[j],
                ),
        forall|i: int|
            0 <= i < n && is_usable(b, strings, #[trigger] headers[i]) ==> exists|j: int|
                0 <= j < named_sections(b, strings, headers, n).len() && is_described(
                    strings,
                    headers[i],
                    #[trigger] named_sections(b, strings, headers, n)[j],
                ),
    decreases n,
{
    if n > 0 {
        lemma_named(b, strings, headers, n - 1);
        let before = named_sections(b, strings, headers, n - 1);
        let now = named_sections(b, strings, headers, n);
        assert forall|j: int| 0 <= j < now.len() implies exists|i: int|
            0 <= i < n && is_usable(b, strings, #[trigger] headers[i]) && is_described(
                strings,
                headers[i],
                #[trigger] now[j],
            ) by {
            if j < before.len() {
                assert(now[j] == before[j]);
            } else {
                assert(is_usable(b, strings, headers[n - 1]));
            }
        }
        assert forall|i: int| 0 <= i < n && is_usable(b, strings, #[trigger] headers[i]) implies exists|
            j: int,
        |
            0 <= j < now.len() && is_described(strings, headers[i], #[trigger] now[j]) by {
            if i < n - 1 {
                let j = choose|j: int|
                    0 <= j < before.len() && is_described(
                        strings,
                        headers[i],
                        #[trigger] before[j],
                    );
                assert(now[j] == before[j]);
            } else {
                assert(now[before.len() as int] == now.last());
            }
        }
    }
}

/// The sections of a file are those that its headers describe, each under its name in the string table,
/// and none else.
pub proof fn law_sections_are_those_described(b: Seq<u8>, section: NamedSectionView)
    ensures
        elf_of(b) matches Some(parsed) ==> {
            let t = section_table(b)->0;
            let headers = headers_of(b, class_of(b), endian_of(b), t, t.count)->0;
            let names = headers[t.names];
            let strings = b.subrange(names.file_offset as int, names.file_offset + names.size);
            &&& section_table(b) is Some
            &&& parsed.endian == endian_of(b)
            &&& has_sections(class_of(b), t) ==> {
                &&& headers.len() == t.count
                &&& parsed.sections.contains(section) <==> exists|i: int|
                    0 <= i < t.count && is_usable(b, strings, #[trigger] headers[i])
                        && is_described(strings, headers[i], section)
            }
            &&& !has_sections(class_of(b), t) ==> parsed.sections.len() == 0
        },
{
    if let Some(parsed) = elf_of(b) {
        let t = section_table(b)->0;
        if has_sections(class_of(b), t) {
            lemma_headers(b, t, t.count);
            let headers = headers_of(b, class_of(b), endian_of(b), t, t.count)->0;
            let names = headers[t.names];
            let strings = b.subrange(names.file_offset as int, names.file_offset + names.size);
            lemma_named(b, strings, headers, headers.len() as int);
            if exists|i: int|
                0 <= i < t.count && is_usable(b, strings, #[trigger] headers[i]) && is_described(
                    strings,
                    headers[i],
                    section,
                ) {
                let i = choose|i: int|
                    0 <= i < t.count && is_usable(b, strings, #[trigger] headers[i])
                        && is_described(strings, headers[i], section);
                assert(is_usable(b, strings, headers[i]));
                let j = choose|j: int|
                    0 <= j < parsed.sections.len() && is_described(
                        strings,
                        headers[i],
                        #[trigger] parsed.sections[j],
                    );
                assert(parsed.sections[j] == section);
            }
        }
    }
}

/// A name that stands in the string table, with a zero byte behind it, is read back from its place.
pub proof fn law_section_names_read_back(before: Seq<u8>, name: Seq<char>, rest: Seq<u8>)
    requires
        forall|i: int| 0 <= i < encode_utf8(name).len() ==> #[trigger] encode_utf8(name)[i] != 0,
    ensures
        name_at(before + encode_utf8(name) + seq![0u8] + rest, before.len() as int) == Some(name),
{
    broadcast use group_utf8_lib;

    let strings = before + encode_utf8(name) + seq![0u8] + rest;
    let tail = encode_utf8(name) + seq![0u8] + rest;
    assert(strings.skip(before.len() as int) =~= tail);
    lemma_end(tail, encode_utf8(name).len() as int, 0);
    assert(tail.subrange(0, encode_utf8(name).len() as int) =~= encode_utf8(name));
}

proof fn lemma_end(b: Seq<u8>, end: int, from: int)
    requires
        0 <= from <= end < b.len(),
        b[end] == 0,
        forall|i: int| from <= i < end ==> #[trigger] b[i] != 0,
    ensures
        crate::bytes::end_before(b, 0, from) == end,
    decreases end - from,
{
    if from < end {
        lemma_end(b, end, from + 1);
    }
}

/// The place of a note's description: behind its name, at the next multiple of four.
pub open spec fn next_fourth(n: int) -> int {
    if n % 4 == 0 {
        n
    } else {
        n + 4 - n % 4
    }
}

/// The build identifier is the description of the first note of the GNU kind, in hexadecimal digits;
/// notes of another kind are passed over.
pub proof fn law_build_ids_are_gnu_notes(b: Seq<u8>, little: bool, at: int)
    requires
        0 <= at,
        at + 12 <= b.len(),
        at + 12 + number(b, at, 4, little) <= b.len(),
        next_fourth(at + 12 + number(b, at, 4, little)) + number(b, at + 4, 4, little) <= b.len(),
    ensures
        ({
            let e = if little {
                Endian::Little
            } else {
                Endian::Big
            };
            let name = number(b, at, 4, little);
            let start = next_fourth(at + 12 + name);
            let end = start + number(b, at + 4, 4, little);
            let is_gnu = number(b, at + 8, 4, little) == 3 && name >= 3 && b[at + 12] == 'G' as u8
                && b[at + 13] == 'N' as u8 && b[at + 14] == 'U' as u8;
            &&& 0 <= name
            &&& is_gnu ==> build_id_from(b, e, at) == Some(b.subrange(start, end))
            &&& is_gnu && at == 0 ==> build_id_of(b, e) == Some(hex_of(b.subrange(start, end)))
            &&& !is_gnu ==> build_id_from(b, e, at) == build_id_from(b, e, next_fourth(end))
        }),
{
    let e = if little {
        Endian::Little
    } else {
        Endian::Big
    };
    let name = number(b, at, 4, little);
    let size = number(b, at + 4, 4, little);
    law_elf_numbers_have_the_byte_order_of_the_file(b, at, e);
    law_elf_numbers_have_the_byte_order_of_the_file(b, at + 4, e);
    law_elf_numbers_have_the_byte_order_of_the_file(b, at + 8, e);
    lemma_number_is_natural(b, at, 4, little);
    lemma_number_is_natural(b, at + 4, 4, little);
    lemma_next_fourth(at + 12 + name);
    lemma_next_fourth(next_fourth(at + 12 + name) + size);
    lemma_gnu_name(b, at + 12, name);
    assert(build_id_from(b, e, at) == if word_at(b, at + 8, e) == 3 && begins_with(
        b.subrange(at + 12, at + 12 + name),
        seq![71u8, 78, 85],
    ) {
        Some(
            b.subrange(next_fourth(at + 12 + name), next_fourth(at + 12 + name) + size),
        )
    } else {
        build_id_from(b, e, next_fourth(next_fourth(at + 12 + name) + size))
    });
}

proof fn lemma_number_is_natural(b: Seq<u8>, at: int, size: int, little: bool)
    ensures
        number(b, at, size, little) >= 0,
    decreases size,
{
    if size > 0 {
        if little {
            lemma_number_is_natural(b, at + 1, size - 1, little);
        } else {
            lemma_number_is_natural(b, at, size - 1, little);
        }
    }
}

proof fn lemma_next_fourth(n: int)
    requires
        n >= 0,
    ensures
        up_to_4(n) == next_fourth(n),
        next_fourth(n) >= n,
{
}

proof fn lemma_gnu_name(b: Seq<u8>, at: int, size: int)
    requires
        0 <= at,
        0 <= size,
        at + size <= b.len(),
    ensures
        begins_with(b.subrange(at, at + size), seq![71u8, 78, 85]) <==> size >= 3 && b[at] == 71
            && b[at + 1] == 78 && b[at + 2] == 85,
{
    let gnu = seq![71u8, 78, 85];
    if size >= 3 {
        let head = b.subrange(at, at + size).subrange(0, 3);
        assert(head[0] == b[at] && head[1] == b[at + 1] && head[2] == b[at + 2]);
        assert(gnu[0] == 71 && gnu[1] == 78 && gnu[2] == 85);
        assert(head =~= gnu <==> b[at] == 71 && b[at + 1] == 78 && b[at + 2] == 85);
    }
}

/// The build identifier of a file is the one that its first note section with such a note holds.
pub proof fn law_the_first_build_id_counts(b: Seq<u8>, e: Endian, sections: Seq<NamedSectionView>, n: int)
    requires
        0 <= n <= sections.len(),
    ensures
        match first_build_id(b, e, sections, n) {
            Some(id) => exists|i: int|
                n <= i < sections.len() && holds_build_id(b, e, #[trigger] sections[i], id)
                    && forall|j: int, other: Seq<char>|
                    n <= j < i ==> !#[trigger] holds_build_id(b, e, sections[j], other),
            None => forall|j: int, other: Seq<char>|
                n <= j < sections.len() ==> !#[trigger] holds_build_id(b, e, sections[j], other),
        },
    decreases sections.len() - n,
{
    if n < sections.len() {
        law_the_first_build_id_counts(b, e, sections, n + 1);
        if first_build_id(b, e, sections, n) is Some {
            let id = first_build_id(b, e, sections, n)->0;
            if holds_build_id(b, e, sections[n], id) {
            } else {
                let i = choose|i: int|
                    n < i < sections.len() && holds_build_id(b, e, #[trigger] sections[i], id)
                        && forall|j: int, other: Seq<char>|
                        n < j < i ==> !#[trigger] holds_build_id(b, e, sections[j], other);
                assert(holds_build_id(b, e, sections[i], id));
                assert forall|j: int, other: Seq<char>|
                    n <= j < i implies !#[trigger] holds_build_id(b, e, sections[j], other) by {
                    if j == n {
                    }
                }
            }
        }
    }
}

/// Whether a section is a note section inside the file with the build identifier `id`.
pub open spec fn holds_build_id(b: Seq<u8>, e: Endian, s: NamedSectionView, id: Seq<char>) -> bool {
    &&& s.section_type == 7
    &&& s.file_offset + s.size <= b.len()
    &&& build_id_of(b.subrange(s.file_offset as int, s.file_offset + s.size), e) == Some(id)
}

/// Whether a section name is one of the two kinds that hold debugging information.
pub open spec fn names_debugging(name: Seq<char>) -> bool {
    ||| name.len() >= 7 && name.subrange(0, 7) == ".debug_"@
    ||| name.len() >= 8 && name.subrange(0, 8) == ".zdebug_"@
}

proof fn lemma_debug_names(sections: Seq<NamedSectionView>, n: int, name: Seq<char>)
    requires
        0 <= n <= sections.len(),
    ensures
        debug_names(sections, n).contains(name) <==> names_debugging(name) && exists|i: int|
            0 <= i < n && (#[trigger] sections[i]).name == name,
    decreases n,
{
    reveal_strlit(".debug_");
    reveal_strlit(".zdebug_");
    if n > 0 {
        lemma_debug_names(sections, n - 1, name);
        let before = debug_names(sections, n - 1);
        let now = debug_names(sections, n);
        if before.contains(name) {
            let i = choose|i: int| 0 <= i < before.len() && before[i] == name;
            assert(now[i] == name);
        }
        if now.contains(name) {
            let i = choose|i: int| 0 <= i < now.len() && now[i] == name;
            if i < before.len() {
                assert(before[i] == name);
            } else {
                assert(sections[n - 1].name == name);
            }
        }
        if sections[n - 1].name == name && names_debugging(name) {
            assert(now[before.len() as int] == name);
        }
    }
}

/// The summary of a file that is not too large lists its debugging sections, and none else.
pub proof fn law_summaries_list_debugging_sections(b: Seq<u8>, name: Seq<char>)
    requires
        b.len() <= 134_217_728,
    ensures
        elf_summary(b) is Some <==> elf_of(b) is Some,
        elf_summary(b) matches Some(summary) ==> {
            let parsed = elf_of(b)->0;
            &&& summary.build_id == first_build_id(b, endian_of(b), parsed.sections, 0)
            &&& summary.debug_sections.contains(name) ==> names_debugging(name) && exists|i: int|
                0 <= i < parsed.sections.len() && (#[trigger] parsed.sections[i]).name == name
            &&& names_debugging(name) && (exists|i: int|
                0 <= i < parsed.sections.len() && (#[trigger] parsed.sections[i]).name == name)
                ==> crate::sorting::holds_key::<String>(
                summary.debug_sections,
                <String as Keyed>::sort_key(name),
            )
        },
{
    if elf_of(b) is Some {
        let parsed = elf_of(b)->0;
        let names = debug_names(parsed.sections, parsed.sections.len() as int);
        lemma_debug_names(parsed.sections, parsed.sections.len() as int, name);
        law_sorted_set_adds_nothing::<String>(names, name);
    }
}

} // verus!
