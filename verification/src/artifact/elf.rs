//! ELF files: their sections, build identifiers and markers in debug sections.
use vstd::prelude::*;
use vstd::utf8::{decode_utf8, encode_utf8, valid_utf8};

use crate::bytes::{bytes_at, end_before, find_bytes, fits, position_or_end};
use crate::bytes::{read_u16_be, read_u16_le, read_u32_be, read_u32_le, read_u64_be, read_u64_le};
use crate::bytes::{u16_at, u16_be_at, u32_at, u32_be_at, u64_at, u64_be_at};
use crate::digest::{hex_of, hex_text};
use crate::model::{
    ElfMarkerLocation, ElfMarkerLocationView, ElfMetadataSummary, ElfMetadataSummaryView,
    EmbeddedMarker, EmbeddedMarkerView,
};
use crate::sorting::{keys_rise, law_sorted_set_adds_nothing, law_sorted_set_holds_each_once};
use crate::sorting::{lemma_text_piece_splits, sort_unique, sorted_set, text_piece, Keyed};
use crate::text::{begins_with, lemma_occurs_first, occurs, starts_with, utf8_text};

verus! {

pub const MAX_ELF_ANALYSIS_BYTES: u64 = 134217728;

pub const SHT_NOTE: u32 = 7;

pub const NT_GNU_BUILD_ID: u32 = 3;

#[derive(Debug, Clone, Copy, PartialEq, Eq, Structural)]
pub enum Endian {
    Little,
    Big,
}

#[derive(Debug, Clone, Copy, PartialEq, Eq, Structural)]
pub enum ElfClass {
    Elf32,
    Elf64,
}

#[derive(Debug, Clone, Copy, PartialEq, Eq, Structural)]
pub struct SectionHeader {
    pub name_offset: usize,
    pub section_type: u32,
    pub file_offset: usize,
    pub size: usize,
}

#[derive(Debug, PartialEq)]
pub struct NamedSection {
    pub name: String,
    pub section_type: u32,
    pub file_offset: usize,
    pub size: usize,
}

pub struct NamedSectionView {
    pub name: Seq<char>,
    pub section_type: u32,
    pub file_offset: usize,
    pub size: usize,
}

impl DeepView for NamedSection {
    type V = NamedSectionView;

    open spec fn deep_view(&self) -> NamedSectionView {
        NamedSectionView {
            name: self.name@,
            section_type: self.section_type,
            file_offset: self.file_offset,
            size: self.size,
        }
    }
}

#[derive(Debug, PartialEq)]
pub struct ParsedElf {
    pub endian: Endian,
    pub sections: Vec<NamedSection>,
}

#[verifier::ext_equal]
pub struct ParsedElfView {
    pub endian: Endian,
    pub sections: Seq<NamedSectionView>,
}

impl DeepView for ParsedElf {
    type V = ParsedElfView;

    open spec fn deep_view(&self) -> ParsedElfView {
        ParsedElfView { endian: self.endian, sections: self.sections.deep_view() }
    }
}

pub open spec fn half_at(b: Seq<u8>, at: int, endian: Endian) -> int {
    match endian {
        Endian::Little => u16_at(b, at),
        Endian::Big => u16_be_at(b, at),
    }
}

pub open spec fn word_at(b: Seq<u8>, at: int, endian: Endian) -> int {
    match endian {
        Endian::Little => u32_at(b, at),
        Endian::Big => u32_be_at(b, at),
    }
}

pub open spec fn long_at(b: Seq<u8>, at: int, endian: Endian) -> int {
    match endian {
        Endian::Little => u64_at(b, at),
        Endian::Big => u64_be_at(b, at),
    }
}

pub fn read_u16(bytes: &[u8], offset: usize, endian: Endian) -> (r: Option<u16>)
    ensures
        match r {
            Some(n) => offset + 2 <= bytes@.len() && n == half_at(bytes@, offset as int, endian),
            None => offset + 2 > bytes@.len(),
        },
{
    match endian {
        Endian::Little => read_u16_le(bytes, offset),
        Endian::Big => read_u16_be(bytes, offset),
    }
}

pub fn read_u32(bytes: &[u8], offset: usize, endian: Endian) -> (r: Option<u32>)
    ensures
        match r {
            Some(n) => offset + 4 <= bytes@.len() && n == word_at(bytes@, offset as int, endian),
            None => offset + 4 > bytes@.len(),
        },
{
    match endian {
        Endian::Little => read_u32_le(bytes, offset),
        Endian::Big => read_u32_be(bytes, offset),
    }
}

pub fn read_u64(bytes: &[u8], offset: usize, endian: Endian) -> (r: Option<u64>)
    ensures
        match r {
            Some(n) => offset + 8 <= bytes@.len() && n == long_at(bytes@, offset as int, endian),
            None => offset + 8 > bytes@.len(),
        },
{
    match endian {
        Endian::Little => read_u64_le(bytes, offset),
        Endian::Big => read_u64_be(bytes, offset),
    }
}

/// What the file header says of the section headers.
pub struct SectionTable {
    pub offset: int,
    pub entry_size: int,
    pub count: int,
    pub names: int,
}

/// Whether bytes begin as an ELF file of a known class and byte order does.
pub open spec fn is_elf(b: Seq<u8>) -> bool {
    &&& b.len() >= 6
    &&& b[0] == 0x7f
    &&& b[1] == 69
    &&& b[2] == 76
    &&& b[3] == 70
    &&& b[4] == 1 || b[4] == 2
    &&& b[5] == 1 || b[5] == 2
}

pub open spec fn class_of(b: Seq<u8>) -> ElfClass {
    if b[4] == 1 {
        ElfClass::Elf32
    } else {
        ElfClass::Elf64
    }
}

pub open spec fn endian_of(b: Seq<u8>) -> Endian {
    if b[5] == 1 {
        Endian::Little
    } else {
        Endian::Big
    }
}

/// Where the section headers are, if the file header is whole.
pub open spec fn section_table(b: Seq<u8>) -> Option<SectionTable> {
    let e = endian_of(b);
    match class_of(b) {
        ElfClass::Elf32 => if b.len() < 0x34 {
            None
        } else {
            Some(
                SectionTable {
                    offset: word_at(b, 0x20, e),
                    entry_size: half_at(b, 0x2e, e),
                    count: half_at(b, 0x30, e),
                    names: half_at(b, 0x32, e),
                },
            )
        },
        ElfClass::Elf64 => if b.len() < 0x40 || !fits(long_at(b, 0x28, e)) {
            None
        } else {
            Some(
                SectionTable {
                    offset: long_at(b, 0x28, e),
                    entry_size: half_at(b, 0x3a, e),
                    count: half_at(b, 0x3c, e),
                    names: half_at(b, 0x3e, e),
                },
            )
        },
    }
}

/// Whether the section headers are worth reading.
pub open spec fn has_sections(class: ElfClass, t: SectionTable) -> bool {
    &&& t.offset != 0
    &&& t.entry_size >= (if class is Elf32 {
        40int
    } else {
        64int
    })
    &&& t.count != 0
    &&& t.names < t.count
}

/// The section header at `base`.
pub open spec fn header_at(b: Seq<u8>, class: ElfClass, e: Endian, base: int) -> Option<
    SectionHeader,
> {
    match class {
        ElfClass::Elf32 => if base + 0x18 > b.len() {
            None
        } else {
            Some(
                SectionHeader {
                    name_offset: word_at(b, base, e) as usize,
                    section_type: word_at(b, base + 4, e) as u32,
                    file_offset: word_at(b, base + 0x10, e) as usize,
                    size: word_at(b, base + 0x14, e) as usize,
                },
            )
        },
        ElfClass::Elf64 => if base + 0x28 > b.len() || !fits(long_at(b, base + 0x18, e)) || !fits(
            long_at(b, base + 0x20, e),
        ) {
            None
        } else {
            Some(
                SectionHeader {
                    name_offset: word_at(b, base, e) as usize,
                    section_type: word_at(b, base + 4, e) as u32,
                    file_offset: long_at(b, base + 0x18, e) as usize,
                    size: long_at(b, base + 0x20, e) as usize,
                },
            )
        },
    }
}

/// The first `n` section headers, if all of them can be read.
pub open spec fn headers_of(b: Seq<u8>, class: ElfClass, e: Endian, t: SectionTable, n: int) -> Option<
    Seq<SectionHeader>,
>
    decreases n,
{
    if n <= 0 {
        Some(Seq::empty())
    } else {
        let before = headers_of(b, class, e, t, n - 1);
        let own = header_at(b, class, e, t.offset + (n - 1) * t.entry_size);
        if before is Some && own is Some {
            Some(before->0.push(own->0))
        } else {
            None
        }
    }
}

/// The name at `offset` of a string table, if it is UTF-8.
pub open spec fn name_at(strings: Seq<u8>, offset: int) -> Option<Seq<char>> {
    let tail = strings.skip(offset);
    let name = tail.subrange(0, end_before(tail, 0, 0));
    if offset > strings.len() || !valid_utf8(name) {
        None
    } else {
        Some(decode_utf8(name))
    }
}

/// The sections among the first `n` that have a name and lie within the file.
pub open spec fn named_sections(b: Seq<u8>, strings: Seq<u8>, headers: Seq<SectionHeader>, n: int) -> Seq<
    NamedSectionView,
>
    decreases n,
{
    if n <= 0 {
        Seq::empty()
    } else {
        let before = named_sections(b, strings, headers, n - 1);
        let h = headers[n - 1];
        let name = name_at(strings, h.name_offset as int);
        if name is Some && h.file_offset + h.size <= b.len() {
            before.push(
                NamedSectionView {
                    name: name->0,
                    section_type: h.section_type,
                    file_offset: h.file_offset,
                    size: h.size,
                },
            )
        } else {
            before
        }
    }
}

/// What an ELF file holds: its byte order and its named sections.
pub open spec fn elf_of(b: Seq<u8>) -> Option<ParsedElfView> {
    let e = endian_of(b);
    let class = class_of(b);
    if !is_elf(b) || section_table(b) is None {
        None
    } else {
        let t = section_table(b)->0;
        if !has_sections(class, t) {
            Some(ParsedElfView { endian: e, sections: Seq::empty() })
        } else {
            match headers_of(b, class, e, t, t.count) {
                None => None,
                Some(headers) => {
                    let names = headers[t.names];
                    if names.file_offset + names.size > b.len() {
                        None
                    } else {
                        let strings = b.subrange(
                            names.file_offset as int,
                            names.file_offset + names.size,
                        );
                        Some(
                            ParsedElfView {
                                endian: e,
                                sections: named_sections(
                                    b,
                                    strings,
                                    headers,
                                    headers.len() as int,
                                ),
                            },
                        )
                    }
                },
            }
        }
    }
}

proof fn lemma_headers_fail(b: Seq<u8>, class: ElfClass, e: Endian, t: SectionTable, n: int, m: int)
    requires
        n <= m,
        headers_of(b, class, e, t, n) is None,
    ensures
        headers_of(b, class, e, t, m) is None,
    decreases m,
{
    if n < m {
        lemma_headers_fail(b, class, e, t, n, m - 1);
    }
}

fn read_header(bytes: &[u8], class: ElfClass, endian: Endian, base: usize) -> (r: Option<
    SectionHeader,
>)
    ensures
        r == header_at(bytes@, class, endian, base as int),
{
    let len = bytes.len();
    match class {
        ElfClass::Elf32 => {
            if len < 0x18 || base > len - 0x18 {
                return None;
            }
            match (
                read_u32(bytes, base, endian),
                read_u32(bytes, base + 4, endian),
                read_u32(bytes, base + 0x10, endian),
                read_u32(bytes, base + 0x14, endian),
            ) {
                (Some(name), Some(kind), Some(offset), Some(size)) => Some(
                    SectionHeader {
                        name_offset: name as usize,
                        section_type: kind,
                        file_offset: offset as usize,
                        size: size as usize,
                    },
                ),
                _ => None,
            }
        },
        ElfClass::Elf64 => {
            if len < 0x28 || base > len - 0x28 {
                return None;
            }
            match (
                read_u32(bytes, base, endian),
                read_u32(bytes, base + 4, endian),
                read_u64(bytes, base + 0x18, endian),
                read_u64(bytes, base + 0x20, endian),
            ) {
                (Some(name), Some(kind), Some(offset), Some(size)) => {
                    if offset > usize::MAX as u64 || size > usize::MAX as u64 {
                        return None;
                    }
                    Some(
                        SectionHeader {
                            name_offset: name as usize,
                            section_type: kind,
                            file_offset: offset as usize,
                            size: size as usize,
                        },
                    )
                },
                _ => None,
            }
        },
    }
}

/// The offset, entry size and number of the section headers, and which of them holds the names.
fn read_table(bytes: &[u8], class: ElfClass, endian: Endian) -> (r: Option<
    (usize, usize, usize, usize),
>)
    requires
        is_elf(bytes@),
        class == class_of(bytes@),
        endian == endian_of(bytes@),
    ensures
        match r {
            Some(t) => section_table(bytes@) == Some(
                SectionTable {
                    offset: t.0 as int,
                    entry_size: t.1 as int,
                    count: t.2 as int,
                    names: t.3 as int,
                },
            ) && t.1 <= 0xffff && t.2 <= 0xffff,
            None => section_table(bytes@) is None,
        },
{
    match class {
        ElfClass::Elf32 => match (
            read_u32(bytes, 0x20, endian),
            read_u16(bytes, 0x2e, endian),
            read_u16(bytes, 0x30, endian),
            read_u16(bytes, 0x32, endian),
        ) {
            (Some(offset), Some(size), Some(count), Some(names)) => Some(
                (offset as usize, size as usize, count as usize, names as usize),
            ),
            _ => None,
        },
        ElfClass::Elf64 => match (
            read_u64(bytes, 0x28, endian),
            read_u16(bytes, 0x3a, endian),
            read_u16(bytes, 0x3c, endian),
            read_u16(bytes, 0x3e, endian),
        ) {
            (Some(offset), Some(size), Some(count), Some(names)) => {
                if offset > usize::MAX as u64 {
                    return None;
                }
                Some((offset as usize, size as usize, count as usize, names as usize))
            },
            _ => None,
        },
    }
}

fn read_headers(
    bytes: &[u8],
    class: ElfClass,
    endian: Endian,
    offset: usize,
    entry_size: usize,
    count: usize,
    Ghost(t): Ghost<SectionTable>,
) -> (r: Option<Vec<SectionHeader>>)
    requires
        t.offset == offset,
        t.entry_size == entry_size,
        t.count == count,
        entry_size <= 0xffff,
        count <= 0xffff,
    ensures
        match r {
            Some(headers) => headers_of(bytes@, class, endian, t, t.count) == Some(headers@)
                && headers@.len() == count,
            None => headers_of(bytes@, class, endian, t, t.count) is None,
        },
{
    let len: usize = bytes.len();
    let mut headers: Vec<SectionHeader> = Vec::new();
    let mut n: usize = 0;
    assert(headers@ =~= Seq::<SectionHeader>::empty());
    while n < count
        invariant
            len == bytes@.len(),
            t.offset == offset,
            t.entry_size == entry_size,
            t.count == count,
            entry_size <= 0xffff,
            count <= 0xffff,
            n <= count,
            headers@.len() == n,
            headers_of(bytes@, class, endian, t, n as int) == Some(headers@),
        decreases count - n,
    {
        assert(n * entry_size <= 0xffff * 0xffff) by (nonlinear_arith)
            requires
                n <= 0xffff,
                entry_size <= 0xffff,
        ;
        assert(n * entry_size >= 0) by (nonlinear_arith);
        let distance: usize = n * entry_size;
        if distance > usize::MAX - offset {
            proof {
                assert(header_at(bytes@, class, endian, t.offset + n * t.entry_size) is None);
                lemma_headers_fail(bytes@, class, endian, t, n + 1, t.count);
            }
            return None;
        }
        match read_header(bytes, class, endian, offset + distance) {
            Some(header) => {
                headers.push(header);
            },
            None => {
                proof {
                    lemma_headers_fail(bytes@, class, endian, t, n + 1, t.count);
                }
                return None;
            },
        }
        n += 1;
    }
    Some(headers)
}

/// The name at `offset` of a string table, if it is UTF-8.
pub fn section_name(strings: &[u8], offset: usize) -> (r: Option<String>)
    ensures
        r.deep_view() == name_at(strings@, offset as int),
{
    if offset > strings.len() {
        return None;
    }
    let tail = &strings[offset..strings.len()];
    assert(tail@ =~= strings@.skip(offset as int));
    let end = position_or_end(tail, 0);
    utf8_text(&tail[0..end])
}

fn name_sections(bytes: &[u8], strings: &[u8], headers: &Vec<SectionHeader>) -> (r: Vec<
    NamedSection,
>)
    ensures
        r.deep_view() == named_sections(bytes@, strings@, headers@, headers@.len() as int),
{
    let mut sections: Vec<NamedSection> = Vec::new();
    let mut n: usize = 0;
    assert(sections.deep_view() =~= Seq::<NamedSectionView>::empty());
    while n < headers.len()
        invariant
            n <= headers@.len(),
            sections.deep_view() == named_sections(bytes@, strings@, headers@, n as int),
        decreases headers.len() - n,
    {
        let header = headers[n];
        n += 1;
        match section_name(strings, header.name_offset) {
            Some(name) => {
                if header.size <= bytes.len() && header.file_offset <= bytes.len() - header.size {
                    let ghost had = sections.deep_view();
                    let section = NamedSection {
                        name,
                        section_type: header.section_type,
                        file_offset: header.file_offset,
                        size: header.size,
                    };
                    let ghost view = section.deep_view();
                    sections.push(section);
                    assert(sections.deep_view() =~= had.push(view));
                }
            },
            None => {},
        }
    }
    sections
}

pub fn parse_elf(bytes: &[u8]) -> (r: Option<ParsedElf>)
    ensures
        r.deep_view() == elf_of(bytes@),
{
    if bytes.len() < 6 || bytes[0] != 0x7f || bytes[1] != 69 || bytes[2] != 76 || bytes[3] != 70 {
        return None;
    }
    let class = if bytes[4] == 1 {
        ElfClass::Elf32
    } else if bytes[4] == 2 {
        ElfClass::Elf64
    } else {
        return None;
    };
    let endian = if bytes[5] == 1 {
        Endian::Little
    } else if bytes[5] == 2 {
        Endian::Big
    } else {
        return None;
    };
    let (offset, entry_size, count, names) = match read_table(bytes, class, endian) {
        Some(table) => table,
        None => {
            return None;
        },
    };
    let minimum: usize = match class {
        ElfClass::Elf32 => 40,
        ElfClass::Elf64 => 64,
    };
    if offset == 0 || entry_size < minimum || count == 0 || names >= count {
        let sections: Vec<NamedSection> = Vec::new();
        assert(sections.deep_view() =~= Seq::<NamedSectionView>::empty());
        return Some(ParsedElf { endian, sections });
    }
    let headers = match read_headers(
        bytes,
        class,
        endian,
        offset,
        entry_size,
        count,
        Ghost(section_table(bytes@)->0),
    ) {
        Some(headers) => headers,
        None => {
            return None;
        },
    };
    let table = headers[names];
    if table.size > bytes.len() || table.file_offset > bytes.len() - table.size {
        return None;
    }
    let strings = &bytes[table.file_offset..table.file_offset + table.size];
    let sections = name_sections(bytes, strings, &headers);
    Some(ParsedElf { endian, sections })
}

/// The bytes of a section, if it lies within the file.
pub open spec fn content_of(b: Seq<u8>, section: NamedSectionView) -> Option<Seq<u8>> {
    if section.file_offset + section.size <= b.len() {
        Some(b.subrange(section.file_offset as int, section.file_offset + section.size))
    } else {
        None
    }
}

pub fn section_bytes<'a>(bytes: &'a [u8], section: &NamedSection) -> (r: Option<&'a [u8]>)
    ensures
        match r {
            Some(content) => content_of(bytes@, section.deep_view()) == Some(content@),
            None => content_of(bytes@, section.deep_view()) is None,
        },
{
    if section.size > bytes.len() || section.file_offset > bytes.len() - section.size {
        return None;
    }
    Some(&bytes[section.file_offset..section.file_offset + section.size])
}

pub open spec fn is_debug_name(name: Seq<char>) -> bool {
    begins_with(name, ".debug_"@) || begins_with(name, ".zdebug_"@)
}

pub fn is_debug_section(name: &str) -> (r: bool)
    ensures
        r == is_debug_name(name@),
{
    starts_with(name, ".debug_") || starts_with(name, ".zdebug_")
}

/// `n` rounded up to a multiple of four.
pub open spec fn up_to_4(n: int) -> int {
    (n + 3) / 4 * 4
}

pub fn align4(value: usize) -> (r: Option<usize>)
    ensures
        match r {
            Some(n) => n == up_to_4(value as int),
            None => !fits(value + 3),
        },
{
    if value > usize::MAX - 3 {
        None
    } else {
        Some((value + 3) / 4 * 4)
    }
}

/// The content of the first GNU build identifier among the notes from `offset` on.
pub open spec fn build_id_from(b: Seq<u8>, e: Endian, offset: int) -> Option<Seq<u8>>
    decreases b.len() + 3 - offset,
{
    if offset < 0 || offset + 12 > b.len() {
        None
    } else {
        let name_start = offset + 12;
        let name_end = name_start + word_at(b, offset, e);
        let start = up_to_4(name_end);
        let end = start + word_at(b, offset + 4, e);
        if end > b.len() || end < start || name_end < name_start {
            None
        } else if word_at(b, offset + 8, e) == NT_GNU_BUILD_ID && begins_with(
            b.subrange(name_start, name_end),
            seq![71u8, 78, 85],
        ) {
            Some(b.subrange(start, end))
        } else {
            build_id_from(b, e, up_to_4(end))
        }
    }
}

/// The first GNU build identifier among notes, as hexadecimal text.
pub open spec fn build_id_of(b: Seq<u8>, e: Endian) -> Option<Seq<char>> {
    match build_id_from(b, e, 0) {
        Some(id) => Some(hex_of(id)),
        None => None,
    }
}

#[verifier::spinoff_prover]
#[verifier::rlimit(60)]
pub fn parse_gnu_build_id(bytes: &[u8], endian: Endian) -> (r: Option<String>)
    ensures
        r.deep_view() == build_id_of(bytes@, endian),
{
    let owner: [u8; 3] = [71u8, 78, 85];
    assert(owner@ =~= seq![71u8, 78, 85]);
    let mut offset: usize = 0;
    while bytes.len() >= 12 && offset <= bytes.len() - 12
        invariant
            owner@ == seq![71u8, 78, 85],
            build_id_from(bytes@, endian, 0) == build_id_from(bytes@, endian, offset as int),
            offset <= bytes@.len() + 3,
        decreases bytes.len() + 3 - offset,
    {
        let (name_size, size, kind) = match (
            read_u32(bytes, offset, endian),
            read_u32(bytes, offset + 4, endian),
            read_u32(bytes, offset + 8, endian),
        ) {
            (Some(name_size), Some(size), Some(kind)) => (name_size as usize, size as usize, kind),
            _ => {
                return None;
            },
        };
        let name_start: usize = offset + 12;
        if name_size > bytes.len() - name_start {
            return None;
        }
        let name_end: usize = name_start + name_size;
        let start: usize = match align4(name_end) {
            Some(start) => start,
            None => {
                return None;
            },
        };
        if start > bytes.len() || size > bytes.len() - start {
            return None;
        }
        let end: usize = start + size;
        if kind == NT_GNU_BUILD_ID && bytes_at(&bytes[name_start..name_end], &owner, 0) {
            return Some(hex_text(&bytes[start..end]));
        }
        offset = match align4(end) {
            Some(next) => next,
            None => {
                assert(build_id_from(bytes@, endian, up_to_4(end as int)) is None);
                return None;
            },
        };
    }
    None
}

/// Whether a run of bytes that is not empty occurs in others.
pub open spec fn has_bytes(hay: Seq<u8>, needle: Seq<u8>) -> bool {
    needle.len() > 0 && occurs(hay, needle)
}

pub fn contains_bytes(haystack: &[u8], needle: &[u8]) -> (r: bool)
    ensures
        r == has_bytes(haystack@, needle@),
{
    proof {
        lemma_occurs_first(haystack@, needle@);
    }
    if needle.len() == 0 {
        return false;
    }
    match find_bytes(haystack, needle, 0) {
        Some(_) => true,
        None => false,
    }
}

/// The places of the first `m` markers in a section.
pub open spec fn hits_in(
    content: Seq<u8>,
    section: Seq<char>,
    markers: Seq<EmbeddedMarkerView>,
    m: int,
) -> Seq<ElfMarkerLocationView>
    decreases m,
{
    if m <= 0 {
        Seq::empty()
    } else {
        let before = hits_in(content, section, markers, m - 1);
        let marker = markers[m - 1];
        if has_bytes(content, encode_utf8(marker.value)) {
            before.push(
                ElfMarkerLocationView { variable: marker.variable, value: marker.value, section },
            )
        } else {
            before
        }
    }
}

/// The places of markers in the debug sections among the first `n`.
pub open spec fn debug_hits(
    b: Seq<u8>,
    sections: Seq<NamedSectionView>,
    markers: Seq<EmbeddedMarkerView>,
    n: int,
) -> Seq<ElfMarkerLocationView>
    decreases n,
{
    if n <= 0 {
        Seq::empty()
    } else {
        let before = debug_hits(b, sections, markers, n - 1);
        let section = sections[n - 1];
        if is_debug_name(section.name) && content_of(b, section) is Some {
            before + hits_in(
                content_of(b, section)->0,
                section.name,
                markers,
                markers.len() as int,
            )
        } else {
            before
        }
    }
}

/// Where markers stand in the debug sections of an ELF file, in order and each once.
pub open spec fn marker_locations(b: Seq<u8>, markers: Seq<EmbeddedMarkerView>) -> Seq<
    ElfMarkerLocationView,
> {
    if b.len() > MAX_ELF_ANALYSIS_BYTES {
        Seq::empty()
    } else {
        match elf_of(b) {
            Some(parsed) => sorted_set::<ElfMarkerLocation>(
                debug_hits(b, parsed.sections, markers, parsed.sections.len() as int),
            ),
            None => Seq::empty(),
        }
    }
}

fn push_hits(
    hits: &mut Vec<ElfMarkerLocation>,
    content: &[u8],
    section: &String,
    markers: &[EmbeddedMarker],
)
    ensures
        final(hits).deep_view() == old(hits).deep_view() + hits_in(
            content@,
            section@,
            markers.deep_view(),
            markers@.len() as int,
        ),
{
    let ghost had = hits.deep_view();
    let mut m: usize = 0;
    assert(had + Seq::<ElfMarkerLocationView>::empty() =~= had);
    while m < markers.len()
        invariant
            m <= markers@.len(),
            hits.deep_view() == had + hits_in(
                content@,
                section@,
                markers.deep_view(),
                m as int,
            ),
        decreases markers.len() - m,
    {
        assert(markers.deep_view()[m as int] == markers@[m as int].deep_view());
        let ghost before = hits.deep_view();
        if contains_bytes(content, markers[m].value.as_str().as_bytes()) {
            let hit = ElfMarkerLocation {
                variable: markers[m].variable.clone(),
                value: markers[m].value.clone(),
                section: section.clone(),
            };
            let ghost view = hit.deep_view();
            hits.push(hit);
            assert(hits.deep_view() =~= before.push(view));
        }
        m += 1;
        assert(hits.deep_view() =~= had + hits_in(
            content@,
            section@,
            markers.deep_view(),
            m as int,
        ));
    }
}

pub fn scan_debug_marker_locations(bytes: &[u8], markers: &[EmbeddedMarker]) -> (r: Vec<
    ElfMarkerLocation,
>)
    ensures
        r.deep_view() == marker_locations(bytes@, markers.deep_view()),
{
    let none: Vec<ElfMarkerLocation> = Vec::new();
    assert(none.deep_view() =~= Seq::<ElfMarkerLocationView>::empty());
    if bytes.len() as u64 > MAX_ELF_ANALYSIS_BYTES {
        return none;
    }
    let parsed = match parse_elf(bytes) {
        Some(parsed) => parsed,
        None => {
            return none;
        },
    };
    let ghost sections = parsed.sections.deep_view();
    let mut hits = none;
    let mut n: usize = 0;
    while n < parsed.sections.len()
        invariant
            sections == parsed.sections.deep_view(),
            n <= parsed.sections@.len(),
            hits.deep_view() == debug_hits(bytes@, sections, markers.deep_view(), n as int),
        decreases parsed.sections.len() - n,
    {
        let section = &parsed.sections[n];
        assert(sections[n as int] == section.deep_view());
        if is_debug_section(section.name.as_str()) {
            if let Some(content) = section_bytes(bytes, section) {
                push_hits(&mut hits, content, &section.name, markers);
            }
        }
        n += 1;
    }
    sort_unique(hits)
}

pub open spec fn as_markers(locations: Seq<ElfMarkerLocationView>) -> Seq<EmbeddedMarkerView> {
    Seq::new(
        locations.len(),
        |i: int|
            EmbeddedMarkerView { variable: locations[i].variable, value: locations[i].value },
    )
}

/// Whether a location comes from one of the first `n` sections: a debug section of that name that
/// holds the value of a given marker, which is not empty.
pub open spec fn is_located(
    b: Seq<u8>,
    sections: Seq<NamedSectionView>,
    markers: Seq<EmbeddedMarkerView>,
    n: int,
    l: ElfMarkerLocationView,
) -> bool {
    &&& markers.contains(EmbeddedMarkerView { variable: l.variable, value: l.value })
    &&& exists|k: int|
        0 <= k < n && is_debug_name((#[trigger] sections[k]).name) && sections[k].name == l.section
            && match content_of(b, sections[k]) {
            Some(content) => has_bytes(content, encode_utf8(l.value)),
            None => false,
        }
}

proof fn lemma_hits_in(
    content: Seq<u8>,
    section: Seq<char>,
    markers: Seq<EmbeddedMarkerView>,
    m: int,
    l: ElfMarkerLocationView,
)
    requires
        0 <= m <= markers.len(),
    ensures
        hits_in(content, section, markers, m).contains(l) <==> l.section == section && has_bytes(
            content,
            encode_utf8(l.value),
        ) && markers.take(m).contains(
            EmbeddedMarkerView { variable: l.variable, value: l.value },
        ),
    decreases m,
{
    let marker = EmbeddedMarkerView { variable: l.variable, value: l.value };
    if m > 0 {
        lemma_hits_in(content, section, markers, m - 1, l);
        let before = hits_in(content, section, markers, m - 1);
        let after = hits_in(content, section, markers, m);
        assert(markers.take(m) =~= markers.take(m - 1).push(markers[m - 1]));
        lemma_push_contains(markers.take(m - 1), markers[m - 1], marker);
        if has_bytes(content, encode_utf8(markers[m - 1].value)) {
            lemma_push_contains(before, after.last(), l);
            assert(after =~= before.push(after.last()));
        }
    }
}

proof fn lemma_push_contains<A>(s: Seq<A>, a: A, x: A)
    ensures
        s.push(a).contains(x) <==> s.contains(x) || x == a,
{
    let t = s.push(a);
    assert(t[s.len() as int] == a);
    if s.contains(x) {
        let i = choose|i: int| 0 <= i < s.len() && s[i] == x;
        assert(t[i] == x);
    }
}

proof fn lemma_debug_hits(
    b: Seq<u8>,
    sections: Seq<NamedSectionView>,
    markers: Seq<EmbeddedMarkerView>,
    n: int,
    l: ElfMarkerLocationView,
)
    requires
        0 <= n <= sections.len(),
    ensures
        debug_hits(b, sections, markers, n).contains(l) <==> is_located(b, sections, markers, n, l),
    decreases n,
{
    if n > 0 {
        lemma_debug_hits(b, sections, markers, n - 1, l);
        let section = sections[n - 1];
        let before = debug_hits(b, sections, markers, n - 1);
        if is_located(b, sections, markers, n - 1, l) {
            assert(is_located(b, sections, markers, n, l));
        }
        if is_debug_name(section.name) && content_of(b, section) is Some {
            let content = content_of(b, section)->0;
            let own = hits_in(content, section.name, markers, markers.len() as int);
            lemma_hits_in(content, section.name, markers, markers.len() as int, l);
            assert(markers.take(markers.len() as int) =~= markers);
            let all = before + own;
            if before.contains(l) {
                let i = choose|i: int| 0 <= i < before.len() && before[i] == l;
                assert(all[i] == l);
            }
            if own.contains(l) {
                let i = choose|i: int| 0 <= i < own.len() && own[i] == l;
                assert(all[before.len() + i] == l);
            }
            assert(all.contains(l) <==> before.contains(l) || own.contains(l));
        }
    }
}

/// The locations of markers in an ELF file come in order and each once, and they are all the debug
/// sections that hold a marker.
pub proof fn law_locations_are_all_sections_that_hold_a_marker(
    b: Seq<u8>,
    markers: Seq<EmbeddedMarkerView>,
    l: ElfMarkerLocationView,
)
    ensures
        keys_rise::<ElfMarkerLocation>(marker_locations(b, markers)),
        marker_locations(b, markers).contains(l) <==> b.len() <= MAX_ELF_ANALYSIS_BYTES && elf_of(
            b,
        ) is Some && is_located(
            b,
            elf_of(b)->0.sections,
            markers,
            elf_of(b)->0.sections.len() as int,
            l,
        ),
{
    if b.len() <= MAX_ELF_ANALYSIS_BYTES && elf_of(b) is Some {
        let sections = elf_of(b)->0.sections;
        let hits = debug_hits(b, sections, markers, sections.len() as int);
        let found = marker_locations(b, markers);
        let key = ElfMarkerLocation::sort_key(l);
        law_sorted_set_holds_each_once::<ElfMarkerLocation>(hits, key);
        law_sorted_set_adds_nothing::<ElfMarkerLocation>(hits, l);
        lemma_debug_hits(b, sections, markers, sections.len() as int, l);
        if hits.contains(l) {
            let j = choose|j: int|
                0 <= j < found.len() && ElfMarkerLocation::sort_key(#[trigger] found[j]) == key;
            lemma_location_keys(found[j], l);
            assert(found.contains(l));
        }
    }
}

proof fn lemma_location_keys(a: ElfMarkerLocationView, b: ElfMarkerLocationView)
    requires
        ElfMarkerLocation::sort_key(a) == ElfMarkerLocation::sort_key(b),
    ensures
        a == b,
{
    let x = text_piece(a.value) + text_piece(a.section);
    let y = text_piece(b.value) + text_piece(b.section);
    assert(text_piece(a.variable) + x =~= ElfMarkerLocation::sort_key(a));
    assert(text_piece(b.variable) + y =~= ElfMarkerLocation::sort_key(b));
    lemma_text_piece_splits(a.variable, b.variable, x, y);
    lemma_text_piece_splits(a.value, b.value, text_piece(a.section), text_piece(b.section));
    let none = Seq::<int>::empty();
    assert(text_piece(a.section) + none =~= text_piece(b.section) + none);
    lemma_text_piece_splits(a.section, b.section, none, none);
}

proof fn lemma_marker_keys(a: EmbeddedMarkerView, b: EmbeddedMarkerView)
    requires
        EmbeddedMarker::sort_key(a) == EmbeddedMarker::sort_key(b),
    ensures
        a == b,
{
    lemma_text_piece_splits(a.variable, b.variable, text_piece(a.value), text_piece(b.value));
    let none = Seq::<int>::empty();
    assert(text_piece(a.value) + none =~= text_piece(b.value) + none);
    lemma_text_piece_splits(a.value, b.value, none, none);
}

/// The markers found in the debug sections of an ELF file.
pub open spec fn debug_markers(b: Seq<u8>, markers: Seq<EmbeddedMarkerView>) -> Seq<
    EmbeddedMarkerView,
> {
    sorted_set::<EmbeddedMarker>(as_markers(marker_locations(b, markers)))
}

/// Whether a marker has one of these locations.
pub open spec fn has_location(
    locations: Seq<ElfMarkerLocationView>,
    marker: EmbeddedMarkerView,
) -> bool {
    exists|i: int|
        0 <= i < locations.len() && (#[trigger] locations[i]).variable == marker.variable
            && locations[i].value == marker.value
}

/// The markers found in debug sections come in order and each once. They are the markers that have a
/// location, all of them among the markers looked for, and none of them is empty.
pub proof fn law_debug_markers_are_the_located_ones(
    b: Seq<u8>,
    markers: Seq<EmbeddedMarkerView>,
    marker: EmbeddedMarkerView,
)
    ensures
        keys_rise::<EmbeddedMarker>(debug_markers(b, markers)),
        debug_markers(b, markers).contains(marker) <==> has_location(
            marker_locations(b, markers),
            marker,
        ),
        debug_markers(b, markers).contains(marker) ==> markers.contains(marker)
            && marker.value.len() > 0,
{
    let locations = marker_locations(b, markers);
    let all = as_markers(locations);
    let found = debug_markers(b, markers);
    let key = EmbeddedMarker::sort_key(marker);
    law_sorted_set_holds_each_once::<EmbeddedMarker>(all, key);
    law_sorted_set_adds_nothing::<EmbeddedMarker>(all, marker);
    if has_location(locations, marker) {
        let i = choose|i: int|
            0 <= i < locations.len() && (#[trigger] locations[i]).variable == marker.variable
                && locations[i].value == marker.value;
        assert(all[i] == marker);
        let j = choose|j: int|
            0 <= j < found.len() && EmbeddedMarker::sort_key(#[trigger] found[j]) == key;
        lemma_marker_keys(found[j], marker);
        assert(found.contains(marker));
        law_locations_are_all_sections_that_hold_a_marker(b, markers, locations[i]);
        assert(locations.contains(locations[i]));
        lemma_empty_text_has_no_bytes(marker.value);
    }
    if all.contains(marker) {
        let i = choose|i: int| 0 <= i < all.len() && all[i] == marker;
        assert(locations[i].variable == marker.variable);
    }
}

proof fn lemma_empty_text_has_no_bytes(s: Seq<char>)
    ensures
        s.len() == 0 ==> encode_utf8(s).len() == 0,
{
}

/// The markers that stand in debug sections of an ELF file, in order and each once.
pub fn scan_debug_markers(bytes: &[u8], markers: &[EmbeddedMarker]) -> (r: Vec<EmbeddedMarker>)
    ensures
        r.deep_view() == debug_markers(bytes@, markers.deep_view()),
{
    let locations = scan_debug_marker_locations(bytes, markers);
    let mut hits: Vec<EmbeddedMarker> = Vec::new();
    let mut i: usize = 0;
    while i < locations.len()
        invariant
            i <= locations@.len(),
            hits@.len() == i,
            forall|k: int|
                0 <= k < i ==> (#[trigger] hits@[k]).variable@ == locations@[k].variable@
                    && hits@[k].value@ == locations@[k].value@,
        decreases locations.len() - i,
    {
        hits.push(
            EmbeddedMarker {
                variable: locations[i].variable.clone(),
                value: locations[i].value.clone(),
            },
        );
        i += 1;
    }
    assert(hits.deep_view() =~= as_markers(locations.deep_view()));
    sort_unique(hits)
}

/// The names of the debug sections among the first `n`.
pub open spec fn debug_names(sections: Seq<NamedSectionView>, n: int) -> Seq<Seq<char>>
    decreases n,
{
    if n <= 0 {
        Seq::empty()
    } else if is_debug_name(sections[n - 1].name) {
        debug_names(sections, n - 1).push(sections[n - 1].name)
    } else {
        debug_names(sections, n - 1)
    }
}

/// The first build identifier in the note sections from `n` on.
pub open spec fn first_build_id(
    b: Seq<u8>,
    e: Endian,
    sections: Seq<NamedSectionView>,
    n: int,
) -> Option<Seq<char>>
    decreases sections.len() - n,
{
    if n >= sections.len() {
        None
    } else {
        let own = match content_of(b, sections[n]) {
            Some(content) => build_id_of(content, e),
            None => None,
        };
        if sections[n].section_type == SHT_NOTE && own is Some {
            own
        } else {
            first_build_id(b, e, sections, n + 1)
        }
    }
}

pub open spec fn elf_summary(b: Seq<u8>) -> Option<ElfMetadataSummaryView> {
    if b.len() > MAX_ELF_ANALYSIS_BYTES {
        None
    } else {
        match elf_of(b) {
            Some(parsed) => Some(
                ElfMetadataSummaryView {
                    build_id: first_build_id(b, parsed.endian, parsed.sections, 0),
                    debug_sections: sorted_set::<String>(
                        debug_names(parsed.sections, parsed.sections.len() as int),
                    ),
                },
            ),
            None => None,
        }
    }
}

fn find_build_id(bytes: &[u8], parsed: &ParsedElf) -> (r: Option<String>)
    ensures
        r.deep_view() == first_build_id(
            bytes@,
            parsed.endian,
            parsed.sections.deep_view(),
            0,
        ),
{
    let ghost sections = parsed.sections.deep_view();
    let mut n: usize = 0;
    while n < parsed.sections.len()
        invariant
            sections == parsed.sections.deep_view(),
            n <= parsed.sections@.len(),
            first_build_id(bytes@, parsed.endian, sections, 0) == first_build_id(
                bytes@,
                parsed.endian,
                sections,
                n as int,
            ),
        decreases parsed.sections.len() - n,
    {
        let section = &parsed.sections[n];
        assert(sections[n as int] == section.deep_view());
        if section.section_type == SHT_NOTE {
            if let Some(content) = section_bytes(bytes, section) {
                let own = parse_gnu_build_id(content, parsed.endian);
                if own.is_some() {
                    return own;
                }
            }
        }
        n += 1;
    }
    None
}

pub fn inspect(bytes: &[u8]) -> (r: Option<ElfMetadataSummary>)
    ensures
        r.deep_view() == elf_summary(bytes@),
{
    if bytes.len() as u64 > MAX_ELF_ANALYSIS_BYTES {
        return None;
    }
    let parsed = match parse_elf(bytes) {
        Some(parsed) => parsed,
        None => {
            return None;
        },
    };
    let ghost sections = parsed.sections.deep_view();
    let mut names: Vec<String> = Vec::new();
    let mut n: usize = 0;
    assert(names.deep_view() =~= Seq::<Seq<char>>::empty());
    while n < parsed.sections.len()
        invariant
            sections == parsed.sections.deep_view(),
            n <= parsed.sections@.len(),
            names.deep_view() == debug_names(sections, n as int),
        decreases parsed.sections.len() - n,
    {
        assert(sections[n as int] == parsed.sections@[n as int].deep_view());
        if is_debug_section(parsed.sections[n].name.as_str()) {
            let ghost had = names.deep_view();
            let name = parsed.sections[n].name.clone();
            let ghost text = name@;
            names.push(name);
            assert(names.deep_view() =~= had.push(text));
        }
        n += 1;
    }
    let build_id = find_build_id(bytes, &parsed);
    Some(ElfMetadataSummary { build_id, debug_sections: sort_unique(names) })
}

} // verus!
