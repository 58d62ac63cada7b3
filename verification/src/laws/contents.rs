//! What the readers of packages and programs tell of them.
use vstd::prelude::*;

use crate::artifact::generic::some_named;
use crate::artifact::semantic::{
    attribute_differences, difference_if, first_passing, header_fields, hexadecimal, jar_layout,
    leb_from, leb_scale, macho_header, macho_order, macho_summary, member_count, name_passes,
    passing_count, pe_summary, semantic_differences, semantic_summary, u32_in, wasm_summary,
    with_attribute, NameTest, macho_uuid_from, wasm_attributes, wheel_layout, WasmSections,
};
use crate::environment::entries_added;
use crate::laws::artifacts::{begins, begins_so, ends_so};
use crate::laws::configuration::{lemma_all_added, lemma_text_entry};
use crate::laws::executables::number;
use crate::model::{
    ArchiveMemberMetadataView, ArchiveMetadataSummaryView, ArtifactSemanticDifferenceView,
    ArtifactSemanticSummaryView, ArtifactType,
};
use crate::numbers::decimal_of;
use crate::ordering::{key_of, Order};
use crate::string_map::{increasing, lemma_place, place_of, value_at, Entries};
use crate::text::{begins_with, finishes_with, lower, split_first, trimmed, CharClass};

verus! {

proof fn lemma_nothing(k: Seq<char>)
    ensures
        increasing(Order::Text, Seq::<(Seq<char>, Seq<char>)>::empty()),
        value_at(Order::Text, Seq::<(Seq<char>, Seq<char>)>::empty(), k) is None,
{
    let none: Entries = Seq::empty();
    if value_at(Order::Text, none, k) is Some {
        lemma_place(Order::Text, none, k);
    }
}

/// A portable executable tells the fields of its COFF header, each in its place.
pub proof fn law_pe_facts_are_the_header_fields(b: Seq<u8>)
    ensures
        pe_summary(b) matches Some(s) ==> {
            let at = number(b, 60, 4, true) + 4;
            &&& b.len() >= at + 20
            &&& s.kind == "pe_coff"@ && !s.truncated
            &&& value_at(Order::Text, s.attributes, "machine"@) == Some(
                hexadecimal(number(b, at, 2, true), 4),
            )
            &&& value_at(Order::Text, s.attributes, "section_count"@) == Some(
                decimal_of(number(b, at + 2, 2, true)),
            )
            &&& value_at(Order::Text, s.attributes, "coff_timestamp"@) == Some(
                decimal_of(number(b, at + 4, 4, true)),
            )
            &&& value_at(Order::Text, s.attributes, "optional_header_size"@) == Some(
                decimal_of(number(b, at + 16, 2, true)),
            )
            &&& value_at(Order::Text, s.attributes, "characteristics"@) == Some(
                hexadecimal(number(b, at + 18, 2, true), 4),
            )
        },
{
    reveal_with_fuel(number, 5);
    reveal_strlit("machine");
    reveal_strlit("section_count");
    reveal_strlit("coff_timestamp");
    reveal_strlit("optional_header_size");
    reveal_strlit("characteristics");
    assert("machine"@.len() == 7 && "section_count"@.len() == 13 && "coff_timestamp"@.len() == 14
        && "optional_header_size"@.len() == 20 && "characteristics"@.len() == 15);
    if pe_summary(b) is Some {
        let coff = crate::bytes::u32_at(b, 0x3c) + 4;
        let m = hexadecimal(crate::bytes::u16_at(b, coff), 4);
        let n = decimal_of(crate::bytes::u16_at(b, coff + 2));
        let t = decimal_of(crate::bytes::u32_at(b, coff + 4));
        let o = decimal_of(crate::bytes::u16_at(b, coff + 16));
        let c = hexadecimal(crate::bytes::u16_at(b, coff + 18), 4);
        lemma_five(
            "machine"@,
            m,
            "section_count"@,
            n,
            "coff_timestamp"@,
            t,
            "optional_header_size"@,
            o,
            "characteristics"@,
            c,
        );
    }
}

proof fn lemma_five(
    k1: Seq<char>,
    v1: Seq<char>,
    k2: Seq<char>,
    v2: Seq<char>,
    k3: Seq<char>,
    v3: Seq<char>,
    k4: Seq<char>,
    v4: Seq<char>,
    k5: Seq<char>,
    v5: Seq<char>,
)
    requires
        k1 != k2 && k1 != k3 && k1 != k4 && k1 != k5,
        k2 != k3 && k2 != k4 && k2 != k5,
        k3 != k4 && k3 != k5,
        k4 != k5,
    ensures
        ({
            let all = with_attribute(
                with_attribute(
                    with_attribute(
                        with_attribute(with_attribute(Seq::empty(), k1, v1), k2, v2),
                        k3,
                        v3,
                    ),
                    k4,
                    v4,
                ),
                k5,
                v5,
            );
            &&& increasing(Order::Text, all)
            &&& value_at(Order::Text, all, k1) == Some(v1)
            &&& value_at(Order::Text, all, k2) == Some(v2)
            &&& value_at(Order::Text, all, k3) == Some(v3)
            &&& value_at(Order::Text, all, k4) == Some(v4)
            &&& value_at(Order::Text, all, k5) == Some(v5)
        }),
{
    let e0: Entries = Seq::empty();
    let e1 = with_attribute(e0, k1, v1);
    let e2 = with_attribute(e1, k2, v2);
    let e3 = with_attribute(e2, k3, v3);
    let e4 = with_attribute(e3, k4, v4);
    assert forall|k: Seq<char>| true implies #[trigger] value_at(
        Order::Text,
        with_attribute(e4, k5, v5),
        k,
    ) == if k == k5 {
        Some(v5)
    } else if k == k4 {
        Some(v4)
    } else if k == k3 {
        Some(v3)
    } else if k == k2 {
        Some(v2)
    } else if k == k1 {
        Some(v1)
    } else {
        None
    } by {
        lemma_nothing(k);
        lemma_text_entry(e0, k1, v1, k);
        lemma_text_entry(e1, k2, v2, k);
        lemma_text_entry(e2, k3, v3, k);
        lemma_text_entry(e3, k4, v4, k);
        lemma_text_entry(e4, k5, v5, k);
    }
    lemma_nothing(k1);
    lemma_text_entry(e0, k1, v1, k1);
    lemma_text_entry(e1, k2, v2, k1);
    lemma_text_entry(e2, k3, v3, k1);
    lemma_text_entry(e3, k4, v4, k1);
    lemma_text_entry(e4, k5, v5, k1);
}

/// A portable executable is read exactly if it points to a header that is there.
pub proof fn law_pe_facts_need_a_header(b: Seq<u8>)
    ensures
        pe_summary(b) is Some <==> {
            let at = number(b, 60, 4, true);
            &&& b.len() >= 64
            &&& b[0] == 'M' as u8 && b[1] == 'Z' as u8
            &&& at + 24 <= b.len()
            &&& b[at] == 'P' as u8 && b[at + 1] == 'E' as u8 && b[at + 2] == 0 && b[at + 3] == 0
        },
{
    reveal_with_fuel(number, 5);
    let at = crate::bytes::u32_at(b, 0x3c);
    let mark = seq![80u8, 69, 0, 0];
    if b.len() >= 64 && at + 4 <= b.len() {
        let found = b.subrange(at, at + 4);
        assert(found[0] == b[at] && found[1] == b[at + 1] && found[2] == b[at + 2] && found[3]
            == b[at + 3]);
        assert(mark[0] == 80 && mark[1] == 69 && mark[2] == 0 && mark[3] == 0);
        assert(found =~= mark <==> b[at] == 80 && b[at + 1] == 69 && b[at + 2] == 0 && b[at + 3]
            == 0);
    }
}

/// The number at the beginning of a Mach-O file tells its byte order and its width.
pub proof fn law_macho_files_tell_their_byte_order(b: Seq<u8>)
    ensures
        macho_order(b) == if begins(b, 0xfe, 0xed, 0xfa, 0xce) {
            Some((false, false))
        } else if begins(b, 0xfe, 0xed, 0xfa, 0xcf) {
            Some((false, true))
        } else if begins(b, 0xce, 0xfa, 0xed, 0xfe) {
            Some((true, false))
        } else if begins(b, 0xcf, 0xfa, 0xed, 0xfe) {
            Some((true, true))
        } else {
            None
        },
{
}

/// A Mach-O file tells its byte order, its width and the fields of its header.
pub proof fn law_macho_facts_are_the_header_fields(b: Seq<u8>, little: bool, wide: bool)
    ensures
        ({
            let all = macho_header(b, little, wide);
            &&& value_at(Order::Text, all, "endianness"@) == Some(
                if little {
                    "little"@
                } else {
                    "big"@
                },
            )
            &&& value_at(Order::Text, all, "is_64_bit"@) == Some(
                if wide {
                    "true"@
                } else {
                    "false"@
                },
            )
            &&& value_at(Order::Text, all, "cpu_type"@) == Some(
                hexadecimal(number(b, 4, 4, little), 8),
            )
            &&& value_at(Order::Text, all, "file_type"@) == Some(
                hexadecimal(number(b, 12, 4, little), 8),
            )
            &&& value_at(Order::Text, all, "load_command_count"@) == Some(
                decimal_of(number(b, 16, 4, little)),
            )
            &&& value_at(Order::Text, all, "load_commands_size"@) == Some(
                decimal_of(number(b, 20, 4, little)),
            )
        }),
{
    reveal_with_fuel(number, 5);
    reveal_strlit("endianness");
    reveal_strlit("is_64_bit");
    reveal_strlit("cpu_type");
    reveal_strlit("file_type");
    reveal_strlit("load_command_count");
    reveal_strlit("load_commands_size");
    let k1 = "endianness"@;
    let k2 = "is_64_bit"@;
    let k3 = "cpu_type"@;
    let k4 = "file_type"@;
    let k5 = "load_command_count"@;
    let k6 = "load_commands_size"@;
    assert(k1.len() == 10 && k2.len() == 9 && k3.len() == 8 && k4.len() == 9 && k5.len() == 18
        && k6.len() == 18);
    assert(k2[0] == 'i' && k4[0] == 'f' && k5[12] == '_' && k6[12] == 's');
    let v1 = if little {
        "little"@
    } else {
        "big"@
    };
    let v2 = crate::text::bool_text(wide);
    let v3 = hexadecimal(u32_in(b, 4, little), 8);
    let v4 = hexadecimal(u32_in(b, 12, little), 8);
    let v5 = decimal_of(u32_in(b, 16, little));
    let v6 = decimal_of(u32_in(b, 20, little));
    lemma_five(k1, v1, k2, v2, k3, v3, k4, v4, k5, v5);
    let five = with_attribute(
        with_attribute(
            with_attribute(with_attribute(with_attribute(Seq::empty(), k1, v1), k2, v2), k3, v3),
            k4,
            v4,
        ),
        k5,
        v5,
    );
    lemma_text_entry(five, k6, v6, k1);
    lemma_text_entry(five, k6, v6, k2);
    lemma_text_entry(five, k6, v6, k3);
    lemma_text_entry(five, k6, v6, k4);
    lemma_text_entry(five, k6, v6, k5);
    lemma_text_entry(five, k6, v6, k6);
}

/// A number written in groups of seven bits, the lowest first.
pub open spec fn leb(n: int) -> Seq<u8>
    decreases n,
{
    if n < 128 {
        seq![n as u8]
    } else {
        seq![(n % 128 + 128) as u8] + leb(n / 128)
    }
}

proof fn lemma_leb(b: Seq<u8>, rest: Seq<u8>, index: int, value: int, n: int)
    requires
        0 <= n,
        0 <= index <= b.len(),
        index + leb(n).len() <= 9,
        b.skip(index) == leb(n) + rest,
    ensures
        leb_from(b, index, value) == Some((value + n * leb_scale(index), index + leb(n).len())),
    decreases n,
{
    let tail = b.skip(index);
    assert(tail.len() == leb(n).len() + rest.len());
    assert(leb(n).len() >= 1);
    assert(b[index] == tail[0]);
    assert(tail[0] == leb(n)[0]);
    if n >= 128 {
        let next = value + (n % 128) * leb_scale(index);
        assert(leb(n)[0] == (n % 128 + 128) as u8);
        assert(b.skip(index + 1) =~= tail.skip(1));
        assert(tail.skip(1) =~= leb(n / 128) + rest);
        assert(leb(n).len() == 1 + leb(n / 128).len());
        lemma_leb(b, rest, index + 1, next, n / 128);
        assert(leb_scale(index + 1) == 128 * leb_scale(index));
        assert(n * leb_scale(index) == (n % 128) * leb_scale(index) + (n / 128) * (128
            * leb_scale(index))) by (nonlinear_arith)
            requires
                n == (n / 128) * 128 + n % 128,
        ;
        assert((n % 128 + 128) as u8 as int % 128 == n % 128);
    } else {
        assert(n as u8 as int % 128 == n);
    }
}

/// A number of at most nine groups of seven bits is read back, with the place behind it.
pub proof fn law_variable_length_numbers_read_back(n: int, rest: Seq<u8>)
    requires
        0 <= n,
        leb(n).len() <= 9,
    ensures
        leb_from(leb(n) + rest, 0, 0) == Some((n, leb(n).len() as int)),
{
    let b = leb(n) + rest;
    assert(b.skip(0) =~= b);
    lemma_leb(b, rest, 0, 0, n);
    assert(leb_scale(0) == 1);
}

/// As many members are counted as pass the test.
pub proof fn law_members_are_counted(
    test: NameTest,
    members: Seq<ArchiveMemberMetadataView>,
    member: ArchiveMemberMetadataView,
)
    ensures
        member_count(test, Seq::empty()) == 0,
        member_count(test, members.push(member)) == member_count(test, members) + if name_passes(
            test,
            member.name,
        ) {
            1int
        } else {
            0int
        },
{
    lemma_count_prefix(test, members, members.push(member), members.len() as int);
}

proof fn lemma_count_prefix(
    test: NameTest,
    a: Seq<ArchiveMemberMetadataView>,
    b: Seq<ArchiveMemberMetadataView>,
    n: int,
)
    requires
        0 <= n <= a.len(),
        n <= b.len(),
        forall|i: int| 0 <= i < n ==> a[i] == #[trigger] b[i],
    ensures
        passing_count(test, a, n) == passing_count(test, b, n),
    decreases n,
{
    if n > 0 {
        lemma_count_prefix(test, a, b, n - 1);
        assert(a[n - 1] == b[n - 1]);
    }
}

/// Members pass by their place and their ending.
pub proof fn law_members_pass_by_place_and_ending(name: Seq<char>)
    ensures
        name_passes(NameTest::ClassFile, name) <==> ends_so(name, ".class"@),
        name_passes(NameTest::ServiceDescriptor, name) <==> begins_so(name, "META-INF/services/"@)
            && !ends_so(name, "/"@),
        name_passes(NameTest::VersionedClass, name) <==> begins_so(name, "META-INF/versions/"@),
        name_passes(NameTest::WheelFile, name) <==> ends_so(name, ".dist-info/WHEEL"@),
        name_passes(NameTest::MetadataFile, name) <==> ends_so(name, ".dist-info/METADATA"@),
        name_passes(NameTest::RecordFile, name) <==> ends_so(name, ".dist-info/RECORD"@),
        name_passes(NameTest::NativeExtension, name) <==> ends_so(name, ".so"@) || ends_so(
            name,
            ".pyd"@,
        ) || ends_so(name, ".dll"@) || ends_so(name, ".dylib"@),
        name_passes(NameTest::ControlArchive, name) <==> begins_so(name, "control.tar"@),
        name_passes(NameTest::DataArchive, name) <==> begins_so(name, "data.tar"@),
        name_passes(NameTest::Blob, name) <==> begins_so(name, "blobs/sha256/"@),
{
    assert forall|text: Seq<char>| #[trigger]
        finishes_with(name, text) <==> ends_so(name, text) by {
        if name.len() >= text.len() {
            assert(name.subrange(name.len() - text.len(), name.len() as int) =~= name.skip(
                name.len() - text.len(),
            ));
        }
    }
    assert forall|text: Seq<char>| #[trigger]
        begins_with(name, text) <==> begins_so(name, text) by {
        if name.len() >= text.len() {
            assert(name.subrange(0, text.len() as int) =~= name.take(text.len() as int));
        }
    }
}

/// The member that is read is the first one that passes, and none only if none passes.
pub proof fn law_the_first_passing_member_is_read(
    test: NameTest,
    members: Seq<ArchiveMemberMetadataView>,
    from: int,
)
    requires
        0 <= from <= members.len(),
    ensures
        match first_passing(test, members, from) {
            Some(name) => exists|i: int|
                from <= i < members.len() && (#[trigger] members[i]).name == name && name_passes(
                    test,
                    name,
                ) && forall|j: int|
                    from <= j < i ==> !name_passes(test, (#[trigger] members[j]).name),
            None => forall|j: int|
                from <= j < members.len() ==> !name_passes(test, (#[trigger] members[j]).name),
        },
    decreases members.len() - from,
{
    if from < members.len() {
        law_the_first_passing_member_is_read(test, members, from + 1);
        if name_passes(test, members[from].name) {
            assert(members[from].name == first_passing(test, members, from)->0);
        } else if first_passing(test, members, from + 1) is Some {
            let name = first_passing(test, members, from + 1)->0;
            let i = choose|i: int|
                from < i < members.len() && (#[trigger] members[i]).name == name && name_passes(
                    test,
                    name,
                ) && forall|j: int|
                    from < j < i ==> !name_passes(test, (#[trigger] members[j]).name);
            assert(members[i].name == name);
            assert forall|j: int| from <= j < i implies !name_passes(
                test,
                (#[trigger] members[j]).name,
            ) by {
                if j == from {
                }
            }
        }
    }
}

/// Whether a line gives the field `key` a value.
pub open spec fn gives_field(row: Seq<char>, key: Seq<char>, value: Seq<char>) -> bool {
    split_first(row, ":"@) matches Some(halves) && key.len() > 0 && lower(
        trimmed(halves.0, CharClass::White),
    ) == key && trimmed(halves.1, CharClass::White) == value
}

/// A field has the value that the first line with its name gives it.
pub proof fn law_the_first_line_of_a_field_counts(rows: Seq<Seq<char>>, n: int, key: Seq<char>)
    requires
        0 <= n <= rows.len(),
    ensures
        increasing(Order::Text, header_fields(rows, n)),
        match value_at(Order::Text, header_fields(rows, n), key) {
            Some(value) => exists|i: int|
                0 <= i < n && gives_field(#[trigger] rows[i], key, value) && forall|
                    j: int,
                    other: Seq<char>,
                |
                    0 <= j < i ==> !#[trigger] gives_field(rows[j], key, other),
            None => forall|j: int, other: Seq<char>|
                0 <= j < n ==> !#[trigger] gives_field(rows[j], key, other),
        },
    decreases n,
{
    if n <= 0 {
        lemma_nothing(key);
    } else {
        law_the_first_line_of_a_field_counts(rows, n - 1, key);
        let before = header_fields(rows, n - 1);
        if let Some(halves) = split_first(rows[n - 1], ":"@) {
            let own = lower(trimmed(halves.0, CharClass::White));
            let value = trimmed(halves.1, CharClass::White);
            if own.len() > 0 && value_at(Order::Text, before, own) is None {
                lemma_text_entry(before, own, value, key);
                if own == key {
                    assert(gives_field(rows[n - 1], key, value));
                }
            } else if own == key && own.len() > 0 {
                assert(value_at(Order::Text, before, key) is Some);
            }
        }
        if value_at(Order::Text, before, key) is Some {
            let value = value_at(Order::Text, before, key)->0;
            let i = choose|i: int|
                0 <= i < n - 1 && gives_field(#[trigger] rows[i], key, value) && forall|
                    j: int,
                    other: Seq<char>,
                |
                    0 <= j < i ==> !#[trigger] gives_field(rows[j], key, other);
            assert(gives_field(rows[i], key, value));
        }
    }
}

/// A jar tells whether it has a manifest, how many classes and services it holds, and whether it holds
/// classes for several releases.
pub proof fn law_jar_facts_tell_its_members(members: Seq<ArchiveMemberMetadataView>)
    ensures
        ({
            let all = jar_layout(members);
            &&& value_at(Order::Text, all, "manifest_present"@) == Some(
                if exists|i: int|
                    0 <= i < members.len() && (#[trigger] members[i]).name
                        == "META-INF/MANIFEST.MF"@ {
                    "true"@
                } else {
                    "false"@
                },
            )
            &&& value_at(Order::Text, all, "class_count"@) == Some(
                decimal_of(member_count(NameTest::ClassFile, members)),
            )
            &&& value_at(Order::Text, all, "service_descriptor_count"@) == Some(
                decimal_of(member_count(NameTest::ServiceDescriptor, members)),
            )
            &&& value_at(Order::Text, all, "multi_release_layout"@) == Some(
                if first_passing(NameTest::VersionedClass, members, 0) is Some {
                    "true"@
                } else {
                    "false"@
                },
            )
        }),
{
    reveal_strlit("manifest_present");
    reveal_strlit("class_count");
    reveal_strlit("service_descriptor_count");
    reveal_strlit("multi_release_layout");
    let k1 = "manifest_present"@;
    let k2 = "class_count"@;
    let k3 = "service_descriptor_count"@;
    let k4 = "multi_release_layout"@;
    assert(k1.len() == 16 && k2.len() == 11 && k3.len() == 24 && k4.len() == 20);
    let e0: Entries = Seq::empty();
    let v1 = crate::text::bool_text(some_named(members, "META-INF/MANIFEST.MF"@));
    let v2 = decimal_of(member_count(NameTest::ClassFile, members));
    let v3 = decimal_of(member_count(NameTest::ServiceDescriptor, members));
    let v4 = crate::text::bool_text(first_passing(NameTest::VersionedClass, members, 0) is Some);
    let e1 = with_attribute(e0, k1, v1);
    let e2 = with_attribute(e1, k2, v2);
    let e3 = with_attribute(e2, k3, v3);
    assert forall|k: Seq<char>| true implies #[trigger] value_at(
        Order::Text,
        with_attribute(e3, k4, v4),
        k,
    ) == if k == k4 {
        Some(v4)
    } else if k == k3 {
        Some(v3)
    } else if k == k2 {
        Some(v2)
    } else if k == k1 {
        Some(v1)
    } else {
        None
    } by {
        lemma_nothing(k);
        lemma_text_entry(e0, k1, v1, k);
        lemma_text_entry(e1, k2, v2, k);
        lemma_text_entry(e2, k3, v3, k);
        lemma_text_entry(e3, k4, v4, k);
    }
}

/// A wheel tells how many metadata directories it has, which of the three files in them are there, and
/// how many native extensions it holds.
pub proof fn law_wheel_facts_tell_its_members(members: Seq<ArchiveMemberMetadataView>)
    ensures
        ({
            let all = wheel_layout(members);
            &&& value_at(Order::Text, all, "wheel_metadata_present"@) == Some(
                if first_passing(NameTest::WheelFile, members, 0) is Some {
                    "true"@
                } else {
                    "false"@
                },
            )
            &&& value_at(Order::Text, all, "package_metadata_present"@) == Some(
                if first_passing(NameTest::MetadataFile, members, 0) is Some {
                    "true"@
                } else {
                    "false"@
                },
            )
            &&& value_at(Order::Text, all, "record_present"@) == Some(
                if first_passing(NameTest::RecordFile, members, 0) is Some {
                    "true"@
                } else {
                    "false"@
                },
            )
            &&& value_at(Order::Text, all, "native_extension_count"@) == Some(
                decimal_of(member_count(NameTest::NativeExtension, members)),
            )
        }),
{
    reveal_strlit("dist_info_count");
    reveal_strlit("wheel_metadata_present");
    reveal_strlit("package_metadata_present");
    reveal_strlit("record_present");
    reveal_strlit("native_extension_count");
    let k1 = "dist_info_count"@;
    let k2 = "wheel_metadata_present"@;
    let k3 = "package_metadata_present"@;
    let k4 = "record_present"@;
    let k5 = "native_extension_count"@;
    assert(k1.len() == 15 && k2.len() == 22 && k3.len() == 24 && k4.len() == 14 && k5.len() == 22);
    assert(k2[0] == 'w' && k5[0] == 'n');
    lemma_five(
        k1,
        decimal_of(
            crate::sorting::sorted_set::<String>(
                crate::artifact::semantic::dist_info_roots(members, members.len() as int),
            ).len() as int,
        ),
        k2,
        crate::text::bool_text(first_passing(NameTest::WheelFile, members, 0) is Some),
        k3,
        crate::text::bool_text(first_passing(NameTest::MetadataFile, members, 0) is Some),
        k4,
        crate::text::bool_text(first_passing(NameTest::RecordFile, members, 0) is Some),
        k5,
        decimal_of(member_count(NameTest::NativeExtension, members)),
    );
}

/// A WebAssembly module tells its version, how many sections and how many custom ones it has, and whether
/// those for names and producers are among these.
pub proof fn law_wasm_facts_tell_its_sections(version: int, sections: WasmSections)
    ensures
        ({
            let all = wasm_attributes(version, sections);
            &&& value_at(Order::Text, all, "version"@) == Some(decimal_of(version))
            &&& value_at(Order::Text, all, "section_count"@) == Some(decimal_of(sections.count))
            &&& value_at(Order::Text, all, "custom_section_count"@) == Some(
                decimal_of(sections.names.len() as int),
            )
            &&& value_at(Order::Text, all, "name_section_present"@) == Some(
                if exists|i: int| 0 <= i < sections.names.len() && #[trigger] sections.names[i]
                    == "name"@ {
                    "true"@
                } else {
                    "false"@
                },
            )
            &&& value_at(Order::Text, all, "producers_section_present"@) == Some(
                if exists|i: int| 0 <= i < sections.names.len() && #[trigger] sections.names[i]
                    == "producers"@ {
                    "true"@
                } else {
                    "false"@
                },
            )
        }),
{
    reveal_strlit("version");
    reveal_strlit("section_count");
    reveal_strlit("custom_section_count");
    reveal_strlit("name_section_present");
    reveal_strlit("producers_section_present");
    reveal_strlit("custom_section_order_sha256");
    let k1 = "version"@;
    let k2 = "section_count"@;
    let k3 = "custom_section_count"@;
    let k4 = "name_section_present"@;
    let k5 = "producers_section_present"@;
    let k6 = "custom_section_order_sha256"@;
    assert(k1.len() == 7 && k2.len() == 13 && k3.len() == 20 && k4.len() == 20 && k5.len() == 25
        && k6.len() == 27);
    assert(k3[0] == 'c' && k4[0] == 'n');
    let v1 = decimal_of(version);
    let v2 = decimal_of(sections.count);
    let v3 = decimal_of(sections.names.len() as int);
    let v4 = crate::text::bool_text(crate::text::lists_text(sections.names, "name"@));
    let v5 = crate::text::bool_text(crate::text::lists_text(sections.names, "producers"@));
    let v6 = crate::digest::digest_text(
        vstd::utf8::encode_utf8(
            crate::text::joined(sections.names, "\n"@, sections.names.len() as int),
        ),
    );
    lemma_five(k1, v1, k2, v2, k3, v3, k4, v4, k5, v5);
    let five = with_attribute(
        with_attribute(
            with_attribute(with_attribute(with_attribute(Seq::empty(), k1, v1), k2, v2), k3, v3),
            k4,
            v4,
        ),
        k5,
        v5,
    );
    lemma_text_entry(five, k6, v6, k1);
    lemma_text_entry(five, k6, v6, k2);
    lemma_text_entry(five, k6, v6, k3);
    lemma_text_entry(five, k6, v6, k4);
    lemma_text_entry(five, k6, v6, k5);
}

/// The identifier of a Mach-O file is in its first load command of that kind and size, if no other one
/// follows; a file without load commands has none.
pub proof fn law_macho_identifiers_are_load_commands(b: Seq<u8>, at: int, end: int, little: bool)
    requires
        0 <= at,
        at + 24 <= end <= b.len(),
        end <= usize::MAX,
        number(b, at, 4, little) == 0x1b,
        number(b, at + 4, 4, little) == 24,
    ensures
        macho_uuid_from(b, at, 1, end, little, None) == Some(Some(b.subrange(at + 8, at + 24))),
        macho_uuid_from(b, at, 0, end, little, None) == Some(None::<Seq<u8>>),
{
    reveal_with_fuel(number, 5);
    reveal_with_fuel(macho_uuid_from, 3);
}

/// Nothing is told of a package that is too large or of a file that is neither a package nor a program;
/// what is told names the kind that it was told of.
pub proof fn law_facts_are_told_by_kind(
    b: Seq<u8>,
    kind: ArtifactType,
    metadata: Option<ArchiveMetadataSummaryView>,
)
    ensures
        b.len() > 67_108_864 ==> semantic_summary(b, kind, metadata) is None,
        semantic_summary(b, kind, metadata) matches Some(s) ==> match kind {
            ArtifactType::Jar => s.kind == "jar"@ && metadata is Some,
            ArtifactType::PythonWheel => s.kind == "python_wheel"@ && metadata is Some,
            ArtifactType::Deb => s.kind == "deb"@ && metadata is Some,
            ArtifactType::OciImage => s.kind == "oci_image"@ && metadata is Some,
            ArtifactType::PeCoff => s.kind == "pe_coff"@,
            ArtifactType::MachO => s.kind == "mach_o"@,
            ArtifactType::Wasm => s.kind == "wasm"@,
            _ => false,
        },
        b.len() <= 67_108_864 && metadata is Some && (kind is Jar || kind is PythonWheel || kind
            is Deb || kind is OciImage) ==> semantic_summary(b, kind, metadata) is Some,
        b.len() <= 67_108_864 && kind is PeCoff ==> semantic_summary(b, kind, metadata)
            == pe_summary(b),
        b.len() <= 67_108_864 && kind is MachO ==> semantic_summary(b, kind, metadata)
            == macho_summary(b),
        b.len() <= 67_108_864 && kind is Wasm ==> semantic_summary(b, kind, metadata)
            == wasm_summary(b),
{
}

proof fn lemma_attribute_differences(
    baseline: Entries,
    variant: Entries,
    keys: Entries,
    n: int,
    d: ArtifactSemanticDifferenceView,
)
    requires
        0 <= n <= keys.len(),
    ensures
        attribute_differences(baseline, variant, keys, n).contains(d) <==> d.baseline != d.variant
            && d.baseline == value_at(Order::Text, baseline, d.field) && d.variant == value_at(
            Order::Text,
            variant,
            d.field,
        ) && exists|i: int| 0 <= i < n && (#[trigger] keys[i]).0 == d.field,
    decreases n,
{
    if n > 0 {
        lemma_attribute_differences(baseline, variant, keys, n - 1, d);
        let key = keys[n - 1].0;
        let left = value_at(Order::Text, baseline, key);
        let right = value_at(Order::Text, variant, key);
        let own = ArtifactSemanticDifferenceView { field: key, baseline: left, variant: right };
        lemma_joined(
            attribute_differences(baseline, variant, keys, n - 1),
            difference_if(left != right, own),
            d,
        );
        lemma_difference_if(left != right, own, d);
    }
}

proof fn lemma_joined(
    a: Seq<ArtifactSemanticDifferenceView>,
    b: Seq<ArtifactSemanticDifferenceView>,
    d: ArtifactSemanticDifferenceView,
)
    ensures
        (a + b).contains(d) <==> a.contains(d) || b.contains(d),
{
    if a.contains(d) {
        let i = choose|i: int| 0 <= i < a.len() && a[i] == d;
        assert((a + b)[i] == d);
    }
    if b.contains(d) {
        let i = choose|i: int| 0 <= i < b.len() && b[i] == d;
        assert((a + b)[a.len() + i] == d);
    }
    if (a + b).contains(d) {
        let i = choose|i: int| 0 <= i < (a + b).len() && (a + b)[i] == d;
        if i < a.len() {
            assert(a[i] == d);
        } else {
            assert(b[i - a.len()] == d);
        }
    }
}

proof fn lemma_difference_if(
    differs: bool,
    own: ArtifactSemanticDifferenceView,
    d: ArtifactSemanticDifferenceView,
)
    ensures
        difference_if(differs, own).contains(d) <==> differs && d == own,
{
    if differs {
        assert(difference_if(differs, own)[0] == own);
    }
}

/// Every fact that differs between two summaries is told with its two values, and no fact that agrees
/// is told.
pub proof fn law_differing_facts_are_told(
    a: ArtifactSemanticSummaryView,
    b: ArtifactSemanticSummaryView,
    key: Seq<char>,
)
    requires
        increasing(Order::Text, a.attributes),
        increasing(Order::Text, b.attributes),
    ensures
        a.kind != b.kind ==> semantic_differences(a, b).contains(
            (ArtifactSemanticDifferenceView {
                field: "kind"@,
                baseline: Some(a.kind),
                variant: Some(b.kind),
            }),
        ),
        a.truncated != b.truncated ==> semantic_differences(a, b).contains(
            (ArtifactSemanticDifferenceView {
                field: "truncated"@,
                baseline: Some(
                    if a.truncated {
                        "true"@
                    } else {
                        "false"@
                    },
                ),
                variant: Some(
                    if b.truncated {
                        "true"@
                    } else {
                        "false"@
                    },
                ),
            }),
        ),
        value_at(Order::Text, a.attributes, key) != value_at(Order::Text, b.attributes, key)
            ==> exists|field: Seq<char>|
            key_of(Order::Text, field) == key_of(Order::Text, key) && #[trigger] told(
                a,
                b,
                field,
            ),
        key != "kind"@ && key != "truncated"@ && value_at(Order::Text, a.attributes, key)
            == value_at(Order::Text, b.attributes, key) ==> forall|
            d: ArtifactSemanticDifferenceView,
        | #[trigger]
            semantic_differences(a, b).contains(d) ==> d.field != key,
{
    let keys = entries_added(Order::Text, a.attributes, b.attributes, b.attributes.len() as int);
    let n = keys.len() as int;
    let k = ArtifactSemanticDifferenceView {
        field: "kind"@,
        baseline: Some(a.kind),
        variant: Some(b.kind),
    };
    let t = ArtifactSemanticDifferenceView {
        field: "truncated"@,
        baseline: Some(crate::text::bool_text(a.truncated)),
        variant: Some(crate::text::bool_text(b.truncated)),
    };
    let first = difference_if(a.kind != b.kind, k);
    let second = difference_if(a.truncated != b.truncated, t);
    let third = attribute_differences(a.attributes, b.attributes, keys, n);
    assert forall|d: ArtifactSemanticDifferenceView| #[trigger]
        semantic_differences(a, b).contains(d) <==> (a.kind != b.kind && d == k) || (a.truncated
            != b.truncated && d == t) || third.contains(d) by {
        lemma_joined(first, second, d);
        lemma_joined(first + second, third, d);
        lemma_difference_if(a.kind != b.kind, k, d);
        lemma_difference_if(a.truncated != b.truncated, t, d);
    }
    assert forall|d: ArtifactSemanticDifferenceView| #[trigger]
        third.contains(d) implies d.baseline != d.variant && d.baseline == value_at(
        Order::Text,
        a.attributes,
        d.field,
    ) && d.variant == value_at(Order::Text, b.attributes, d.field) by {
        lemma_attribute_differences(a.attributes, b.attributes, keys, n, d);
    }
    if value_at(Order::Text, a.attributes, key) != value_at(Order::Text, b.attributes, key) {
        lemma_all_added(Order::Text, a.attributes, b.attributes, key);
        lemma_place(Order::Text, keys, key);
        let at = place_of(Order::Text, keys, key);
        let field = keys[at].0;
        crate::ordering::lemma_text_key_injective(field, key);
        let d = ArtifactSemanticDifferenceView {
            field,
            baseline: value_at(Order::Text, a.attributes, field),
            variant: value_at(Order::Text, b.attributes, field),
        };
        lemma_attribute_differences(a.attributes, b.attributes, keys, n, d);
        assert(semantic_differences(a, b).contains(d));
        assert(told(a, b, field));
    }
}

/// Whether the differences tell the two values of a fact.
pub open spec fn told(
    a: ArtifactSemanticSummaryView,
    b: ArtifactSemanticSummaryView,
    field: Seq<char>,
) -> bool {
    semantic_differences(a, b).contains(
        (ArtifactSemanticDifferenceView {
            field,
            baseline: value_at(Order::Text, a.attributes, field),
            variant: value_at(Order::Text, b.attributes, field),
        }),
    )
}

} // verus!
