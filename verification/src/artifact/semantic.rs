//! What artifacts say of themselves: manifests, packages, images and executables.
use vstd::prelude::*;
use vstd::utf8::encode_utf8;

use crate::artifact::archive::{
    ar_magic, is_zero_block, octal_field, padded_size, parse_octal_u64, tar_header_name, tar_name,
    zip_mark,
};
use crate::bytes::{bytes_at, copy_bytes, find_bytes, fits, read_u16_le, read_u32_be, read_u32_le};
use crate::bytes::{u16_at, u32_at, u32_be_at};
use crate::digest::{digest_text, hex_of, hex_text, sha256_bytes};
use crate::environment::entries_added;
use crate::json::{document_in, field_of, list_in, list_of_json, parse_json, text_in};
use crate::json::{text_of_json, view_json, whole_in, whole_of_json, Json, JsonView};
use crate::model::{
    ArchiveMemberMetadata, ArchiveMemberMetadataView, ArchiveMetadataSummary,
    ArchiveMetadataSummaryView, ArtifactSemanticDifference, ArtifactSemanticDifferenceView,
    ArtifactSemanticSummary, ArtifactSemanticSummaryView, ArtifactType,
};
use crate::numbers::{decimal, decimal_of, digits_of, number_in, padded_digits, read_number};
use crate::numbers::zero_padded;
use crate::ordering::Order;
use crate::sorting::{sort, sort_unique, sorted, sorted_set};
use crate::string_map::{value_at, with_entry, Entries, StringMap};
use crate::text::{begins_with, bool_text, concat, decode, decoded_text, ends_with, finishes_with};
use crate::text::{first_from, join, joined, lines, lines_of, lower, same, same_option, show_bool};
use crate::text::split_first;
use crate::text::{split_once, stands_at, starts_with, strip_prefix, to_lower, trim, trim_end};
use crate::text::{trim_start, trimmed, trimmed_end, trimmed_start, CharClass};

verus! {

pub const MAX_SEMANTIC_ANALYSIS_BYTES: u64 = 67108864;

pub const MAX_EMBEDDED_METADATA_BYTES: usize = 262144;

pub const MAX_WASM_SECTIONS: usize = 4096;

/// `entries` with one attribute set.
pub open spec fn with_attribute(entries: Entries, name: Seq<char>, value: Seq<char>) -> Entries {
    with_entry(Order::Text, entries, name, value)
}

/// `entries` with an attribute set where there is a value.
pub open spec fn with_optional(entries: Entries, name: Seq<char>, value: Option<Seq<char>>) -> Entries {
    match value {
        Some(text) => with_attribute(entries, name, text),
        None => entries,
    }
}

fn put(attributes: &mut StringMap, name: &str, value: String)
    ensures
        final(attributes).deep_view() == with_attribute(
            old(attributes).deep_view(),
            name@,
            value@,
        ),
{
    attributes.insert(name.to_owned(), value);
}

fn put_optional(attributes: &mut StringMap, name: &str, value: Option<&String>)
    ensures
        final(attributes).deep_view() == with_optional(
            old(attributes).deep_view(),
            name@,
            match value {
                Some(text) => Some(text@),
                None => None,
            },
        ),
{
    if let Some(text) = value {
        attributes.insert(name.to_owned(), text.clone());
    }
}

pub open spec fn difference_if(differs: bool, d: ArtifactSemanticDifferenceView) -> Seq<
    ArtifactSemanticDifferenceView,
> {
    if differs {
        seq![d]
    } else {
        Seq::empty()
    }
}

/// The differences under the first `n` of `keys`.
pub open spec fn attribute_differences(
    baseline: Entries,
    variant: Entries,
    keys: Entries,
    n: int,
) -> Seq<ArtifactSemanticDifferenceView>
    decreases n,
{
    if n <= 0 {
        Seq::empty()
    } else {
        let key = keys[n - 1].0;
        let left = value_at(Order::Text, baseline, key);
        let right = value_at(Order::Text, variant, key);
        attribute_differences(baseline, variant, keys, n - 1) + difference_if(
            left != right,
            ArtifactSemanticDifferenceView { field: key, baseline: left, variant: right },
        )
    }
}

/// How two summaries differ: in kind, in completeness, and attribute by attribute in the order of
/// the names.
pub open spec fn semantic_differences(
    baseline: ArtifactSemanticSummaryView,
    variant: ArtifactSemanticSummaryView,
) -> Seq<ArtifactSemanticDifferenceView> {
    let keys = entries_added(
        Order::Text,
        baseline.attributes,
        variant.attributes,
        variant.attributes.len() as int,
    );
    difference_if(
        baseline.kind != variant.kind,
        ArtifactSemanticDifferenceView {
            field: "kind"@,
            baseline: Some(baseline.kind),
            variant: Some(variant.kind),
        },
    ) + difference_if(
        baseline.truncated != variant.truncated,
        ArtifactSemanticDifferenceView {
            field: "truncated"@,
            baseline: Some(bool_text(baseline.truncated)),
            variant: Some(bool_text(variant.truncated)),
        },
    ) + attribute_differences(
        baseline.attributes,
        variant.attributes,
        keys,
        keys.len() as int,
    )
}

fn push_difference(
    differences: &mut Vec<ArtifactSemanticDifference>,
    differs: bool,
    field: String,
    baseline: Option<String>,
    variant: Option<String>,
)
    ensures
        final(differences).deep_view() == old(differences).deep_view() + difference_if(
            differs,
            ArtifactSemanticDifferenceView {
                field: field@,
                baseline: baseline.deep_view(),
                variant: variant.deep_view(),
            },
        ),
{
    let ghost had = differences.deep_view();
    if differs {
        let difference = ArtifactSemanticDifference { field, baseline, variant };
        let ghost view = difference.deep_view();
        differences.push(difference);
        assert(differences.deep_view() =~= had + seq![view]);
    } else {
        assert(differences.deep_view() =~= had + Seq::<ArtifactSemanticDifferenceView>::empty());
    }
}

pub fn compare(baseline: &ArtifactSemanticSummary, variant: &ArtifactSemanticSummary) -> (r: Vec<
    ArtifactSemanticDifference,
>)
    ensures
        r.deep_view() == semantic_differences(baseline.deep_view(), variant.deep_view()),
{
    let mut differences: Vec<ArtifactSemanticDifference> = Vec::new();
    assert(differences.deep_view() =~= Seq::<ArtifactSemanticDifferenceView>::empty());
    push_difference(
        &mut differences,
        baseline.kind != variant.kind,
        "kind".to_owned(),
        Some(baseline.kind.clone()),
        Some(variant.kind.clone()),
    );
    push_difference(
        &mut differences,
        baseline.truncated != variant.truncated,
        "truncated".to_owned(),
        Some(show_bool(baseline.truncated)),
        Some(show_bool(variant.truncated)),
    );
    let ghost first = differences.deep_view();
    let mut joint = baseline.attributes.clone();
    crate::environment::add_entries(&mut joint, &variant.attributes);
    let keys = joint.entries();
    let ghost all = joint.deep_view();
    let ghost b = baseline.attributes.deep_view();
    let ghost v = variant.attributes.deep_view();
    let mut n: usize = 0;
    assert(first + attribute_differences(b, v, all, 0) =~= first);
    while n < keys.len()
        invariant
            keys.deep_view() == all,
            b == baseline.attributes.deep_view(),
            v == variant.attributes.deep_view(),
            n <= keys@.len(),
            differences.deep_view() == first + attribute_differences(b, v, all, n as int),
        decreases keys.len() - n,
    {
        let key = &keys[n].0;
        assert(all[n as int].0 == key@);
        let left = crate::environment::owned(baseline.attributes.get(key.as_str()));
        let right = crate::environment::owned(variant.attributes.get(key.as_str()));
        let differs = !same_option(&left, &right);
        push_difference(&mut differences, differs, key.clone(), left, right);
        n += 1;
        assert(differences.deep_view() =~= first + attribute_differences(b, v, all, n as int));
    }
    assert(differences.deep_view() =~= semantic_differences(
        baseline.deep_view(),
        variant.deep_view(),
    ));
    differences
}

proof fn lemma_no_attribute_differences(entries: Entries, keys: Entries, n: int)
    ensures
        attribute_differences(entries, entries, keys, n).len() == 0,
    decreases n,
{
    if n > 0 {
        lemma_no_attribute_differences(entries, keys, n - 1);
    }
}

/// A summary does not differ from itself.
pub proof fn law_equal_summaries_have_no_differences(summary: ArtifactSemanticSummaryView)
    ensures
        semantic_differences(summary, summary).len() == 0,
{
    let keys = entries_added(
        Order::Text,
        summary.attributes,
        summary.attributes,
        summary.attributes.len() as int,
    );
    lemma_no_attribute_differences(summary.attributes, keys, keys.len() as int);
}

pub fn summary(kind: &str, attributes: StringMap) -> (r: ArtifactSemanticSummary)
    ensures
        r.deep_view() == summary_view(kind@, attributes.deep_view()),
{
    ArtifactSemanticSummary { kind: kind.to_owned(), attributes, truncated: false }
}

pub open spec fn summary_view(kind: Seq<char>, attributes: Entries) -> ArtifactSemanticSummaryView {
    ArtifactSemanticSummaryView { kind, attributes, truncated: false }
}

/// What the name of a member is asked for.
#[derive(Debug, Clone, Copy, PartialEq, Eq, Structural)]
pub enum NameTest {
    ClassFile,
    ServiceDescriptor,
    VersionedClass,
    WheelFile,
    MetadataFile,
    RecordFile,
    NativeExtension,
    ControlArchive,
    DataArchive,
    Blob,
}

pub open spec fn name_passes(test: NameTest, name: Seq<char>) -> bool {
    match test {
        NameTest::ClassFile => finishes_with(name, ".class"@),
        NameTest::ServiceDescriptor => begins_with(name, "META-INF/services/"@) && !finishes_with(
            name,
            "/"@,
        ),
        NameTest::VersionedClass => begins_with(name, "META-INF/versions/"@),
        NameTest::WheelFile => finishes_with(name, ".dist-info/WHEEL"@),
        NameTest::MetadataFile => finishes_with(name, ".dist-info/METADATA"@),
        NameTest::RecordFile => finishes_with(name, ".dist-info/RECORD"@),
        NameTest::NativeExtension => finishes_with(name, ".so"@) || finishes_with(name, ".pyd"@)
            || finishes_with(name, ".dll"@) || finishes_with(name, ".dylib"@),
        NameTest::ControlArchive => begins_with(name, "control.tar"@),
        NameTest::DataArchive => begins_with(name, "data.tar"@),
        NameTest::Blob => begins_with(name, "blobs/sha256/"@),
    }
}

fn passes(test: NameTest, name: &str) -> (r: bool)
    ensures
        r == name_passes(test, name@),
{
    match test {
        NameTest::ClassFile => ends_with(name, ".class"),
        NameTest::ServiceDescriptor => starts_with(name, "META-INF/services/") && !ends_with(
            name,
            "/",
        ),
        NameTest::VersionedClass => starts_with(name, "META-INF/versions/"),
        NameTest::WheelFile => ends_with(name, ".dist-info/WHEEL"),
        NameTest::MetadataFile => ends_with(name, ".dist-info/METADATA"),
        NameTest::RecordFile => ends_with(name, ".dist-info/RECORD"),
        NameTest::NativeExtension => ends_with(name, ".so") || ends_with(name, ".pyd") || ends_with(
            name,
            ".dll",
        ) || ends_with(name, ".dylib"),
        NameTest::ControlArchive => starts_with(name, "control.tar"),
        NameTest::DataArchive => starts_with(name, "data.tar"),
        NameTest::Blob => starts_with(name, "blobs/sha256/"),
    }
}

/// How many of the first `n` members pass.
pub open spec fn passing_count(test: NameTest, members: Seq<ArchiveMemberMetadataView>, n: int) -> int
    decreases n,
{
    if n <= 0 {
        0
    } else {
        passing_count(test, members, n - 1) + if name_passes(test, members[n - 1].name) {
            1int
        } else {
            0int
        }
    }
}

pub open spec fn member_count(test: NameTest, members: Seq<ArchiveMemberMetadataView>) -> int {
    passing_count(test, members, members.len() as int)
}

fn count_members(test: NameTest, members: &Vec<ArchiveMemberMetadata>) -> (r: usize)
    ensures
        r == member_count(test, members.deep_view()),
{
    let ghost view = members.deep_view();
    let mut count: usize = 0;
    let mut n: usize = 0;
    while n < members.len()
        invariant
            view == members.deep_view(),
            n <= members@.len(),
            count <= n,
            count == passing_count(test, view, n as int),
        decreases members.len() - n,
    {
        assert(view[n as int].name == members@[n as int].name@);
        if passes(test, members[n].name.as_str()) {
            count += 1;
        }
        n += 1;
    }
    count
}

/// The name of the first member at or after `from` that passes.
pub open spec fn first_passing(test: NameTest, members: Seq<ArchiveMemberMetadataView>, from: int) -> Option<
    Seq<char>,
>
    decreases members.len() - from,
{
    if from >= members.len() {
        None
    } else if name_passes(test, members[from].name) {
        Some(members[from].name)
    } else {
        first_passing(test, members, from + 1)
    }
}

fn find_name(test: NameTest, members: &Vec<ArchiveMemberMetadata>) -> (r: Option<String>)
    ensures
        r.deep_view() == first_passing(test, members.deep_view(), 0),
{
    let ghost view = members.deep_view();
    let mut i: usize = 0;
    while i < members.len()
        invariant
            view == members.deep_view(),
            i <= members@.len(),
            first_passing(test, view, 0) == first_passing(test, view, i as int),
        decreases members.len() - i,
    {
        assert(view[i as int].name == members@[i as int].name@);
        if passes(test, members[i].name.as_str()) {
            return Some(members[i].name.clone());
        }
        i += 1;
    }
    None
}

/// The header fields of the first `n` lines: what stands before a colon, in lower case, with what
/// follows it. The first of several fields with one name counts.
pub open spec fn header_fields(rows: Seq<Seq<char>>, n: int) -> Entries
    decreases n,
{
    if n <= 0 {
        Seq::empty()
    } else {
        let before = header_fields(rows, n - 1);
        match split_first(rows[n - 1], ":"@) {
            None => before,
            Some(halves) => {
                let key = lower(trimmed(halves.0, CharClass::White));
                if key.len() == 0 || value_at(Order::Text, before, key) is Some {
                    before
                } else {
                    with_entry(Order::Text, before, key, trimmed(halves.1, CharClass::White))
                }
            },
        }
    }
}

/// The header fields of a file.
pub open spec fn fields_of(b: Seq<u8>) -> Entries {
    header_fields(lines_of(decoded_text(b)), lines_of(decoded_text(b)).len() as int)
}

pub fn parse_header_fields(bytes: &[u8]) -> (r: StringMap)
    ensures
        r.deep_view() == fields_of(bytes@),
{
    let text = decode(bytes);
    let rows = lines(text.as_str());
    let mut fields = StringMap::new();
    let mut n: usize = 0;
    while n < rows.len()
        invariant
            rows.deep_view() == lines_of(decoded_text(bytes@)),
            n <= rows@.len(),
            fields.deep_view() == header_fields(rows.deep_view(), n as int),
        decreases rows.len() - n,
    {
        assert(rows.deep_view()[n as int] == rows@[n as int]@);
        match split_once(rows[n].as_str(), ":") {
            None => {},
            Some(halves) => {
                let key = to_lower(trim(halves.0.as_str(), CharClass::White).as_str());
                if !key.as_str().is_empty() && fields.get(key.as_str()).is_none() {
                    fields.insert(key, trim(halves.1.as_str(), CharClass::White));
                }
            },
        }
        n += 1;
    }
    fields
}

/// The content of the first member from `from` on with this name, if it is stored as it is.
pub open spec fn stored_member_from(b: Seq<u8>, target: Seq<char>, from: int) -> Option<Seq<u8>>
    decreases b.len() - from,
{
    if from < 0 || from + 46 > b.len() {
        None
    } else {
        match first_from(b, zip_mark(), from) {
            None => None,
            Some(at) => {
                let names = at + 46;
                let end = names + u16_at(b, at + 28) + u16_at(b, at + 30) + u16_at(b, at + 32);
                if at < from || names > b.len() || end > b.len() || end < names {
                    None
                } else if decoded_text(b.subrange(names, names + u16_at(b, at + 28))) == target {
                    stored_content(b, at)
                } else {
                    stored_member_from(b, target, end)
                }
            },
        }
    }
}

/// The content that the central directory record at `at` leads to.
pub open spec fn stored_content(b: Seq<u8>, at: int) -> Option<Seq<u8>> {
    let size = u32_at(b, at + 20);
    let local = u32_at(b, at + 42);
    let start = local + 30 + u16_at(b, local + 26) + u16_at(b, local + 28);
    if u16_at(b, at + 10) != 0 || u16_at(b, at + 8) % 2 == 1 || size > MAX_EMBEDDED_METADATA_BYTES {
        None
    } else if local + 30 > b.len() || !stands_at(b, seq![80u8, 75, 3, 4], local) {
        None
    } else if start + size > b.len() {
        None
    } else {
        Some(b.subrange(start, start + size))
    }
}

fn read_stored_content(bytes: &[u8], at: usize) -> (r: Option<Vec<u8>>)
    requires
        at + 46 <= bytes@.len(),
    ensures
        match r {
            Some(content) => stored_content(bytes@, at as int) == Some(content@),
            None => stored_content(bytes@, at as int) is None,
        },
{
    let len: usize = bytes.len();
    assert(at + 46 <= len);
    let (flags, method, size, local) = match (
        read_u16_le(bytes, at + 8),
        read_u16_le(bytes, at + 10),
        read_u32_le(bytes, at + 20),
        read_u32_le(bytes, at + 42),
    ) {
        (Some(flags), Some(method), Some(size), Some(local)) => (
            flags,
            method,
            size as usize,
            local as usize,
        ),
        _ => {
            return None;
        },
    };
    if method != 0 || flags % 2 == 1 || size > MAX_EMBEDDED_METADATA_BYTES {
        return None;
    }
    let mark: [u8; 4] = [80u8, 75, 3, 4];
    assert(mark@ =~= seq![80u8, 75, 3, 4]);
    if bytes.len() < 30 || local > bytes.len() - 30 || !bytes_at(bytes, &mark, local) {
        return None;
    }
    let (name_len, extra_len) = match (
        read_u16_le(bytes, local + 26),
        read_u16_le(bytes, local + 28),
    ) {
        (Some(name_len), Some(extra_len)) => (name_len as usize, extra_len as usize),
        _ => {
            return None;
        },
    };
    let rest: usize = bytes.len() - (local + 30);
    if name_len > rest || extra_len > rest - name_len || size > rest - name_len - extra_len {
        return None;
    }
    let start: usize = local + 30 + name_len + extra_len;
    Some(copy_bytes(&bytes[start..start + size]))
}

pub fn zip_stored_member(bytes: &[u8], target: &str) -> (r: Option<Vec<u8>>)
    ensures
        match r {
            Some(content) => stored_member_from(bytes@, target@, 0) == Some(content@),
            None => stored_member_from(bytes@, target@, 0) is None,
        },
{
    let mark: [u8; 4] = [80u8, 75, 1, 2];
    assert(mark@ =~= zip_mark());
    let mut from: usize = 0;
    while bytes.len() >= 46 && from <= bytes.len() - 46
        invariant
            mark@ == zip_mark(),
            from <= bytes@.len(),
            stored_member_from(bytes@, target@, 0) == stored_member_from(
                bytes@,
                target@,
                from as int,
            ),
        decreases bytes.len() - from,
    {
        let at = match find_bytes(bytes, &mark, from) {
            Some(at) => at,
            None => {
                return None;
            },
        };
        if at > bytes.len() - 46 {
            return None;
        }
        let (name_len, extra_len, comment_len) = match (
            read_u16_le(bytes, at + 28),
            read_u16_le(bytes, at + 30),
            read_u16_le(bytes, at + 32),
        ) {
            (Some(a), Some(b), Some(c)) => (a as usize, b as usize, c as usize),
            _ => {
                return None;
            },
        };
        let names: usize = at + 46;
        let rest: usize = bytes.len() - names;
        if name_len + extra_len + comment_len > rest {
            return None;
        }
        if same(decode(&bytes[names..names + name_len]).as_str(), target) {
            return read_stored_content(bytes, at);
        }
        from = names + name_len + extra_len + comment_len;
    }
    None
}

/// The content of the first `ar` member from `offset` on with this name.
pub open spec fn ar_content_from(b: Seq<u8>, target: Seq<char>, offset: int) -> Option<Seq<u8>>
    decreases b.len() + 1 - offset,
{
    let header = b.subrange(offset, offset + 60);
    let size = number_in(
        trimmed(decoded_text(header.subrange(48, 58)), CharClass::White),
        10,
        usize::MAX as int,
    );
    if offset < 0 || offset + 60 > b.len() || header[58] != 96 || header[59] != 10 {
        None
    } else if size is None || size->0 < 0 || offset + 60 + size->0 > b.len() {
        None
    } else if trimmed_end(
        trimmed(decoded_text(header.subrange(0, 16)), CharClass::White),
        CharClass::One('/'),
    ) == target {
        if size->0 > MAX_EMBEDDED_METADATA_BYTES {
            None
        } else {
            Some(b.subrange(offset + 60, offset + 60 + size->0))
        }
    } else {
        ar_content_from(b, target, offset + 60 + size->0 + size->0 % 2)
    }
}

/// The content of an `ar` member.
pub open spec fn ar_content(b: Seq<u8>, target: Seq<char>) -> Option<Seq<u8>> {
    if begins_with(b, ar_magic()) {
        ar_content_from(b, target, 8)
    } else {
        None
    }
}

pub fn ar_member_content(bytes: &[u8], target: &str) -> (r: Option<Vec<u8>>)
    ensures
        match r {
            Some(content) => ar_content(bytes@, target@) == Some(content@),
            None => ar_content(bytes@, target@) is None,
        },
{
    let magic: [u8; 8] = [33u8, 60, 97, 114, 99, 104, 62, 10];
    assert(magic@ =~= ar_magic());
    if !bytes_at(bytes, &magic, 0) {
        return None;
    }
    let mut offset: usize = 8;
    while bytes.len() >= 60 && offset <= bytes.len() - 60
        invariant
            offset <= bytes@.len() + 1,
            ar_content(bytes@, target@) == ar_content_from(bytes@, target@, offset as int),
        decreases bytes.len() + 1 - offset,
    {
        let header = &bytes[offset..offset + 60];
        assert(header@ == bytes@.subrange(offset as int, offset + 60));
        if header[58] != 96 || header[59] != 10 {
            return None;
        }
        let name = trim_end(
            trim(decode(&header[0..16]).as_str(), CharClass::White).as_str(),
            CharClass::One('/'),
        );
        let size: usize = match read_number(
            trim(decode(&header[48..58]).as_str(), CharClass::White).as_str(),
            10,
            usize::MAX as u64,
        ) {
            Some(size) => size as usize,
            None => {
                return None;
            },
        };
        let start: usize = offset + 60;
        if size > bytes.len() - start {
            return None;
        }
        let end: usize = start + size;
        if same(name.as_str(), target) {
            if size > MAX_EMBEDDED_METADATA_BYTES {
                return None;
            }
            return Some(copy_bytes(&bytes[start..end]));
        }
        if end == usize::MAX {
            assert(ar_content_from(bytes@, target@, end + size % 2) is None);
            return None;
        }
        offset = end + size % 2;
    }
    None
}

/// The content of the first tar member from `offset` on with this name.
pub open spec fn tar_content_from(b: Seq<u8>, target: Seq<char>, offset: int) -> Option<Seq<u8>>
    decreases b.len() + 512 - offset,
{
    let header = b.subrange(offset, offset + 512);
    let size = octal_field(header.subrange(124, 136), u64::MAX as int);
    if offset < 0 || offset + 512 > b.len() || is_zero_block(header) {
        None
    } else if size is None || size->0 < 0 || offset + 512 + size->0 > b.len() {
        None
    } else if tar_header_name(header) == target {
        if size->0 > MAX_EMBEDDED_METADATA_BYTES {
            None
        } else {
            Some(b.subrange(offset + 512, offset + 512 + size->0))
        }
    } else {
        tar_content_from(b, target, offset + 512 + padded_size(size->0))
    }
}

fn zeros(bytes: &[u8]) -> (r: bool)
    ensures
        r == is_zero_block(bytes@),
{
    let mut i: usize = 0;
    while i < bytes.len()
        invariant
            i <= bytes@.len(),
            forall|k: int| 0 <= k < i ==> #[trigger] bytes@[k] == 0,
        decreases bytes.len() - i,
    {
        if bytes[i] != 0 {
            return false;
        }
        i += 1;
    }
    true
}

pub fn tar_member_content(bytes: &[u8], target: &str) -> (r: Option<Vec<u8>>)
    ensures
        match r {
            Some(content) => tar_content_from(bytes@, target@, 0) == Some(content@),
            None => tar_content_from(bytes@, target@, 0) is None,
        },
{
    let mut offset: usize = 0;
    while bytes.len() >= 512 && offset <= bytes.len() - 512
        invariant
            offset <= bytes@.len() + 511,
            tar_content_from(bytes@, target@, 0) == tar_content_from(
                bytes@,
                target@,
                offset as int,
            ),
        decreases bytes.len() + 512 - offset,
    {
        let header = &bytes[offset..offset + 512];
        assert(header@ == bytes@.subrange(offset as int, offset + 512));
        if zeros(header) {
            return None;
        }
        let name = tar_name(header);
        let size: u64 = match parse_octal_u64(&header[124..136]) {
            Some(size) => size,
            None => {
                return None;
            },
        };
        let start: usize = offset + 512;
        if size > (bytes.len() - start) as u64 {
            return None;
        }
        let size: usize = size as usize;
        if same(name.as_str(), target) {
            if size > MAX_EMBEDDED_METADATA_BYTES {
                return None;
            }
            return Some(copy_bytes(&bytes[start..start + size]));
        }
        let blocks: usize = size / 512 + if size % 512 == 0 {
            0
        } else {
            1
        };
        assert(blocks * 512 == padded_size(size as int));
        if blocks > (usize::MAX - start) / 512 {
            assert(tar_content_from(bytes@, target@, start + padded_size(size as int)) is None);
            return None;
        }
        offset = start + blocks * 512;
    }
    None
}


/// The attributes of a Java archive from its members.
pub open spec fn jar_layout(members: Seq<ArchiveMemberMetadataView>) -> Entries {
    let a = with_attribute(
        Seq::empty(),
        "manifest_present"@,
        bool_text(crate::artifact::generic::some_named(members, "META-INF/MANIFEST.MF"@)),
    );
    let b = with_attribute(a, "class_count"@, decimal_of(member_count(NameTest::ClassFile, members)));
    let c = with_attribute(
        b,
        "service_descriptor_count"@,
        decimal_of(member_count(NameTest::ServiceDescriptor, members)),
    );
    with_attribute(
        c,
        "multi_release_layout"@,
        bool_text(first_passing(NameTest::VersionedClass, members, 0) is Some),
    )
}

/// `entries` with what a manifest says.
pub open spec fn with_manifest(entries: Entries, content: Seq<u8>) -> Entries {
    let fields = fields_of(content);
    let a = with_attribute(entries, "manifest_content_sha256"@, digest_text(content));
    let b = with_optional(
        a,
        "manifest_version"@,
        value_at(Order::Text, fields, "manifest-version"@),
    );
    let c = with_attribute(
        b,
        "main_class_present"@,
        bool_text(value_at(Order::Text, fields, "main-class"@) is Some),
    );
    let d = with_attribute(
        c,
        "automatic_module_name_present"@,
        bool_text(value_at(Order::Text, fields, "automatic-module-name"@) is Some),
    );
    with_optional(
        d,
        "multi_release_attribute"@,
        value_at(Order::Text, fields, "multi-release"@),
    )
}

/// What a Java archive says of itself.
pub open spec fn jar_summary(b: Seq<u8>, members: Seq<ArchiveMemberMetadataView>) -> ArtifactSemanticSummaryView {
    let layout = jar_layout(members);
    summary_view(
        "jar"@,
        match stored_member_from(b, "META-INF/MANIFEST.MF"@, 0) {
            Some(content) => with_manifest(layout, content),
            None => layout,
        },
    )
}

fn put_manifest(attributes: &mut StringMap, content: &Vec<u8>)
    ensures
        final(attributes).deep_view() == with_manifest(old(attributes).deep_view(), content@),
{
    put(attributes, "manifest_content_sha256", sha256_bytes(content.as_slice()));
    let fields = parse_header_fields(content.as_slice());
    put_optional(attributes, "manifest_version", fields.get("manifest-version"));
    put(attributes, "main_class_present", show_bool(fields.get("main-class").is_some()));
    put(
        attributes,
        "automatic_module_name_present",
        show_bool(fields.get("automatic-module-name").is_some()),
    );
    put_optional(attributes, "multi_release_attribute", fields.get("multi-release"));
}

pub fn inspect_jar(bytes: &[u8], metadata: &ArchiveMetadataSummary) -> (r: ArtifactSemanticSummary)
    ensures
        r.deep_view() == jar_summary(bytes@, metadata.members.deep_view()),
{
    let members = &metadata.members;
    let mut attributes = StringMap::new();
    put(
        &mut attributes,
        "manifest_present",
        show_bool(crate::artifact::generic::any_named(members, "META-INF/MANIFEST.MF")),
    );
    put(
        &mut attributes,
        "class_count",
        decimal(count_members(NameTest::ClassFile, members) as u128),
    );
    put(
        &mut attributes,
        "service_descriptor_count",
        decimal(count_members(NameTest::ServiceDescriptor, members) as u128),
    );
    put(
        &mut attributes,
        "multi_release_layout",
        show_bool(find_name(NameTest::VersionedClass, members).is_some()),
    );
    if let Some(content) = zip_stored_member(bytes, "META-INF/MANIFEST.MF") {
        put_manifest(&mut attributes, &content);
    }
    summary("jar", attributes)
}

/// The roots of the `.dist-info` directories that the first `n` members stand in.
pub open spec fn dist_info_roots(members: Seq<ArchiveMemberMetadataView>, n: int) -> Seq<Seq<char>>
    decreases n,
{
    if n <= 0 {
        Seq::empty()
    } else {
        let before = dist_info_roots(members, n - 1);
        match split_first(members[n - 1].name, ".dist-info/"@) {
            Some(halves) => before.push(halves.0 + ".dist-info"@),
            None => before,
        }
    }
}

fn count_dist_info_roots(members: &Vec<ArchiveMemberMetadata>) -> (r: usize)
    ensures
        r == sorted_set::<String>(
            dist_info_roots(members.deep_view(), members@.len() as int),
        ).len(),
{
    let ghost view = members.deep_view();
    let mut roots: Vec<String> = Vec::new();
    let mut n: usize = 0;
    assert(roots.deep_view() =~= Seq::<Seq<char>>::empty());
    while n < members.len()
        invariant
            view == members.deep_view(),
            n <= members@.len(),
            roots.deep_view() == dist_info_roots(view, n as int),
        decreases members.len() - n,
    {
        assert(view[n as int].name == members@[n as int].name@);
        if let Some(halves) = split_once(members[n].name.as_str(), ".dist-info/") {
            let ghost had = roots.deep_view();
            let root = concat(halves.0.as_str(), ".dist-info");
            let ghost text = root@;
            roots.push(root);
            assert(roots.deep_view() =~= had.push(text));
        }
        n += 1;
    }
    let unique = sort_unique(roots);
    assert(unique.deep_view().len() == unique@.len());
    unique.len()
}

/// How many of the first `n` lines are tags.
pub open spec fn tag_lines(rows: Seq<Seq<char>>, n: int) -> int
    decreases n,
{
    if n <= 0 {
        0
    } else {
        tag_lines(rows, n - 1) + if begins_with(lower(rows[n - 1]), "tag:"@) {
            1int
        } else {
            0int
        }
    }
}

fn count_tags(content: &Vec<u8>) -> (r: usize)
    ensures
        r == tag_lines(lines_of(decoded_text(content@)), lines_of(decoded_text(content@)).len() as int),
{
    let text = decode(content.as_slice());
    let rows = lines(text.as_str());
    let mut count: usize = 0;
    let mut n: usize = 0;
    while n < rows.len()
        invariant
            n <= rows@.len(),
            count <= n,
            count == tag_lines(rows.deep_view(), n as int),
        decreases rows.len() - n,
    {
        assert(rows.deep_view()[n as int] == rows@[n as int]@);
        if starts_with(to_lower(rows[n].as_str()).as_str(), "tag:") {
            count += 1;
        }
        n += 1;
    }
    count
}

/// The attributes of a wheel from its members.
pub open spec fn wheel_layout(members: Seq<ArchiveMemberMetadataView>) -> Entries {
    let a = with_attribute(
        Seq::empty(),
        "dist_info_count"@,
        decimal_of(
            sorted_set::<String>(dist_info_roots(members, members.len() as int)).len() as int,
        ),
    );
    let b = with_attribute(
        a,
        "wheel_metadata_present"@,
        bool_text(first_passing(NameTest::WheelFile, members, 0) is Some),
    );
    let c = with_attribute(
        b,
        "package_metadata_present"@,
        bool_text(first_passing(NameTest::MetadataFile, members, 0) is Some),
    );
    let d = with_attribute(
        c,
        "record_present"@,
        bool_text(first_passing(NameTest::RecordFile, members, 0) is Some),
    );
    with_attribute(
        d,
        "native_extension_count"@,
        decimal_of(member_count(NameTest::NativeExtension, members)),
    )
}

/// The content of a member whose name may be known.
pub open spec fn content_named(b: Seq<u8>, name: Option<Seq<char>>) -> Option<Seq<u8>> {
    match name {
        Some(target) => stored_member_from(b, target, 0),
        None => None,
    }
}

/// `entries` with what the `WHEEL` file says.
pub open spec fn with_wheel_file(entries: Entries, content: Option<Seq<u8>>) -> Entries {
    match content {
        None => entries,
        Some(bytes) => {
            let fields = fields_of(bytes);
            let rows = lines_of(decoded_text(bytes));
            let a = with_attribute(entries, "wheel_content_sha256"@, digest_text(bytes));
            let b = with_optional(
                a,
                "wheel_version"@,
                value_at(Order::Text, fields, "wheel-version"@),
            );
            let c = with_optional(
                b,
                "root_is_purelib"@,
                match value_at(Order::Text, fields, "root-is-purelib"@) {
                    Some(text) => Some(lower(text)),
                    None => None,
                },
            );
            with_attribute(c, "tag_count"@, decimal_of(tag_lines(rows, rows.len() as int)))
        },
    }
}

/// `entries` with what the `METADATA` file says.
pub open spec fn with_metadata_file(entries: Entries, content: Option<Seq<u8>>) -> Entries {
    match content {
        None => entries,
        Some(bytes) => with_optional(
            with_attribute(entries, "metadata_content_sha256"@, digest_text(bytes)),
            "metadata_version"@,
            value_at(Order::Text, fields_of(bytes), "metadata-version"@),
        ),
    }
}

/// What a Python wheel says of itself.
pub open spec fn wheel_summary(b: Seq<u8>, members: Seq<ArchiveMemberMetadataView>) -> ArtifactSemanticSummaryView {
    let x = with_wheel_file(
        wheel_layout(members),
        content_named(b, first_passing(NameTest::WheelFile, members, 0)),
    );
    let y = with_metadata_file(
        x,
        content_named(b, first_passing(NameTest::MetadataFile, members, 0)),
    );
    summary_view(
        "python_wheel"@,
        match content_named(b, first_passing(NameTest::RecordFile, members, 0)) {
            Some(content) => with_attribute(y, "record_content_sha256"@, digest_text(content)),
            None => y,
        },
    )
}

fn read_named(bytes: &[u8], name: &Option<String>) -> (r: Option<Vec<u8>>)
    ensures
        match r {
            Some(content) => content_named(bytes@, name.deep_view()) == Some(content@),
            None => content_named(bytes@, name.deep_view()) is None,
        },
{
    match name {
        Some(target) => zip_stored_member(bytes, target.as_str()),
        None => None,
    }
}

pub open spec fn bytes_view(content: Option<Vec<u8>>) -> Option<Seq<u8>> {
    match content {
        Some(bytes) => Some(bytes@),
        None => None,
    }
}

fn put_wheel_file(attributes: &mut StringMap, content: &Option<Vec<u8>>)
    ensures
        final(attributes).deep_view() == with_wheel_file(
            old(attributes).deep_view(),
            bytes_view(*content),
        ),
{
    if let Some(bytes) = content {
        put(attributes, "wheel_content_sha256", sha256_bytes(bytes.as_slice()));
        let fields = parse_header_fields(bytes.as_slice());
        put_optional(attributes, "wheel_version", fields.get("wheel-version"));
        if let Some(value) = fields.get("root-is-purelib") {
            put(attributes, "root_is_purelib", to_lower(value.as_str()));
        }
        put(attributes, "tag_count", decimal(count_tags(bytes) as u128));
    }
}

fn put_metadata_file(attributes: &mut StringMap, content: &Option<Vec<u8>>)
    ensures
        final(attributes).deep_view() == with_metadata_file(
            old(attributes).deep_view(),
            bytes_view(*content),
        ),
{
    if let Some(bytes) = content {
        put(attributes, "metadata_content_sha256", sha256_bytes(bytes.as_slice()));
        let fields = parse_header_fields(bytes.as_slice());
        put_optional(attributes, "metadata_version", fields.get("metadata-version"));
    }
}

pub fn inspect_wheel(bytes: &[u8], metadata: &ArchiveMetadataSummary) -> (r: ArtifactSemanticSummary)
    ensures
        r.deep_view() == wheel_summary(bytes@, metadata.members.deep_view()),
{
    let members = &metadata.members;
    let wheel_name = find_name(NameTest::WheelFile, members);
    let metadata_name = find_name(NameTest::MetadataFile, members);
    let record_name = find_name(NameTest::RecordFile, members);
    let mut attributes = StringMap::new();
    put(&mut attributes, "dist_info_count", decimal(count_dist_info_roots(members) as u128));
    put(&mut attributes, "wheel_metadata_present", show_bool(wheel_name.is_some()));
    put(&mut attributes, "package_metadata_present", show_bool(metadata_name.is_some()));
    put(&mut attributes, "record_present", show_bool(record_name.is_some()));
    put(
        &mut attributes,
        "native_extension_count",
        decimal(count_members(NameTest::NativeExtension, members) as u128),
    );
    assert(attributes.deep_view() == wheel_layout(members.deep_view()));
    put_wheel_file(&mut attributes, &read_named(bytes, &wheel_name));
    put_metadata_file(&mut attributes, &read_named(bytes, &metadata_name));
    if let Some(content) = read_named(bytes, &record_name) {
        put(&mut attributes, "record_content_sha256", sha256_bytes(content.as_slice()));
    }
    summary("python_wheel", attributes)
}

/// What follows the stem of an archive name, without dots in front.
pub open spec fn suffix_of(name: Seq<char>, stem: Seq<char>) -> Seq<char> {
    if begins_with(name, stem) {
        trimmed_start(name.skip(stem.len() as int), CharClass::One('.'))
    } else {
        Seq::empty()
    }
}

pub fn archive_suffix(name: &str, stem: &str) -> (r: String)
    ensures
        r@ == suffix_of(name@, stem@),
{
    match strip_prefix(name, stem) {
        Some(rest) => trim_start(rest.as_str(), CharClass::One('.')),
        None => {
            let r = String::new();
            r
        },
    }
}

/// `entries` with the name and compression of one of the inner archives.
pub open spec fn with_inner_archive(
    entries: Entries,
    name: Option<Seq<char>>,
    archive_key: Seq<char>,
    compression_key: Seq<char>,
    stem: Seq<char>,
) -> Entries {
    match name {
        Some(text) => with_attribute(
            with_attribute(entries, archive_key, text),
            compression_key,
            suffix_of(text, stem),
        ),
        None => entries,
    }
}

/// `entries` with the format version of a Debian package, if it is short.
pub open spec fn with_debian_version(entries: Entries, content: Option<Seq<u8>>) -> Entries {
    match content {
        Some(bytes) => {
            let version = trimmed(decoded_text(bytes), CharClass::White);
            if version.len() > 0 && encode_utf8(version).len() <= 32 {
                with_attribute(entries, "debian_binary_version"@, version)
            } else {
                entries
            }
        },
        None => entries,
    }
}

/// What a Debian package says of itself.
pub open spec fn deb_summary(b: Seq<u8>, members: Seq<ArchiveMemberMetadataView>) -> ArtifactSemanticSummaryView {
    let x = with_attribute(
        Seq::empty(),
        "debian_binary_present"@,
        bool_text(crate::artifact::generic::some_named(members, "debian-binary"@)),
    );
    let y = with_inner_archive(
        x,
        first_passing(NameTest::ControlArchive, members, 0),
        "control_archive"@,
        "control_compression"@,
        "control.tar"@,
    );
    let z = with_inner_archive(
        y,
        first_passing(NameTest::DataArchive, members, 0),
        "data_archive"@,
        "data_compression"@,
        "data.tar"@,
    );
    summary_view("deb"@, with_debian_version(z, ar_content(b, "debian-binary"@)))
}

fn put_inner_archive(
    attributes: &mut StringMap,
    name: &Option<String>,
    archive_key: &str,
    compression_key: &str,
    stem: &str,
)
    ensures
        final(attributes).deep_view() == with_inner_archive(
            old(attributes).deep_view(),
            name.deep_view(),
            archive_key@,
            compression_key@,
            stem@,
        ),
{
    if let Some(text) = name {
        put(attributes, archive_key, text.clone());
        put(attributes, compression_key, archive_suffix(text.as_str(), stem));
    }
}

pub fn inspect_deb(bytes: &[u8], metadata: &ArchiveMetadataSummary) -> (r: ArtifactSemanticSummary)
    ensures
        r.deep_view() == deb_summary(bytes@, metadata.members.deep_view()),
{
    let members = &metadata.members;
    let mut attributes = StringMap::new();
    put(
        &mut attributes,
        "debian_binary_present",
        show_bool(crate::artifact::generic::any_named(members, "debian-binary")),
    );
    put_inner_archive(
        &mut attributes,
        &find_name(NameTest::ControlArchive, members),
        "control_archive",
        "control_compression",
        "control.tar",
    );
    put_inner_archive(
        &mut attributes,
        &find_name(NameTest::DataArchive, members),
        "data_archive",
        "data_compression",
        "data.tar",
    );
    if let Some(content) = ar_member_content(bytes, "debian-binary") {
        let version = trim(decode(content.as_slice()).as_str(), CharClass::White);
        if !version.as_str().is_empty() && version.as_str().as_bytes().len() <= 32 {
            put(&mut attributes, "debian_binary_version", version);
        }
    }
    summary("deb", attributes)
}


/// The texts of one field in the first `n` of some objects, where it is a text.
pub open spec fn field_texts(items: Seq<JsonView>, name: Seq<char>, n: int) -> Seq<Seq<char>>
    decreases n,
{
    if n <= 0 {
        Seq::empty()
    } else {
        match text_in(field_of(items[n - 1], name)) {
            Some(text) => field_texts(items, name, n - 1).push(text),
            None => field_texts(items, name, n - 1),
        }
    }
}

fn collect_texts(items: &Vec<Json>, name: &str) -> (r: Vec<String>)
    ensures
        r.deep_view() == field_texts(items.deep_view(), name@, items@.len() as int),
{
    let mut texts: Vec<String> = Vec::new();
    let mut n: usize = 0;
    assert(texts.deep_view() =~= Seq::<Seq<char>>::empty());
    while n < items.len()
        invariant
            n <= items@.len(),
            texts.deep_view() == field_texts(items.deep_view(), name@, n as int),
        decreases items.len() - n,
    {
        assert(items.deep_view()[n as int] == view_json(items@[n as int]));
        if let Some(text) = text_of_json(items[n].get(name)) {
            let ghost had = texts.deep_view();
            let own = text.clone();
            let ghost view = own@;
            texts.push(own);
            assert(texts.deep_view() =~= had.push(view));
        }
        n += 1;
    }
    texts
}

/// `entries` with what the layout file of an image says.
pub open spec fn with_layout(entries: Entries, content: Seq<u8>) -> Entries {
    let a = with_attribute(entries, "oci_layout_sha256"@, digest_text(content));
    match document_in(content) {
        Some(value) => with_optional(
            a,
            "image_layout_version"@,
            text_in(field_of(value, "imageLayoutVersion"@)),
        ),
        None => a,
    }
}

/// `entries` with what the list of manifests says.
pub open spec fn with_manifests(entries: Entries, manifests: Seq<JsonView>) -> Entries {
    let digests = sorted::<String>(field_texts(manifests, "digest"@, manifests.len() as int));
    let a = with_attribute(entries, "manifest_count"@, decimal_of(manifests.len() as int));
    let b = with_attribute(
        a,
        "manifest_digest_set_sha256"@,
        digest_text(encode_utf8(joined(digests, "\n"@, digests.len() as int))),
    );
    with_attribute(
        b,
        "manifest_media_type_count"@,
        decimal_of(
            sorted_set::<String>(
                field_texts(manifests, "mediaType"@, manifests.len() as int),
            ).len() as int,
        ),
    )
}

/// `entries` with what the index of an image says.
pub open spec fn with_index(entries: Entries, content: Seq<u8>) -> Entries {
    let a = with_attribute(entries, "index_json_sha256"@, digest_text(content));
    match document_in(content) {
        Some(value) => {
            let b = match whole_in(field_of(value, "schemaVersion"@)) {
                Some(version) => with_attribute(
                    a,
                    "index_schema_version"@,
                    decimal_of(version),
                ),
                None => a,
            };
            match list_in(field_of(value, "manifests"@)) {
                Some(manifests) => with_manifests(b, manifests),
                None => b,
            }
        },
        None => a,
    }
}

/// What an image archive says of itself.
pub open spec fn oci_summary(b: Seq<u8>, members: Seq<ArchiveMemberMetadataView>) -> ArtifactSemanticSummaryView {
    let x = with_attribute(
        Seq::empty(),
        "blob_count"@,
        decimal_of(member_count(NameTest::Blob, members)),
    );
    let y = match tar_content_from(b, "oci-layout"@, 0) {
        Some(content) => with_layout(x, content),
        None => x,
    };
    summary_view(
        "oci_image"@,
        match tar_content_from(b, "index.json"@, 0) {
            Some(content) => with_index(y, content),
            None => y,
        },
    )
}

fn put_layout(attributes: &mut StringMap, content: &Vec<u8>)
    ensures
        final(attributes).deep_view() == with_layout(old(attributes).deep_view(), content@),
{
    put(attributes, "oci_layout_sha256", sha256_bytes(content.as_slice()));
    if let Some(value) = parse_json(content.as_slice()) {
        put_optional(
            attributes,
            "image_layout_version",
            text_of_json(value.get("imageLayoutVersion")),
        );
    }
}

fn put_manifests(attributes: &mut StringMap, manifests: &Vec<Json>)
    ensures
        final(attributes).deep_view() == with_manifests(
            old(attributes).deep_view(),
            manifests.deep_view(),
        ),
{
    assert(manifests.deep_view().len() == manifests@.len());
    put(attributes, "manifest_count", decimal(manifests.len() as u128));
    let digests = sort(collect_texts(manifests, "digest"));
    assert(digests.deep_view().len() == digests@.len());
    put(
        attributes,
        "manifest_digest_set_sha256",
        sha256_bytes(join(&digests, "\n").as_str().as_bytes()),
    );
    let media_types = sort_unique(collect_texts(manifests, "mediaType"));
    assert(media_types.deep_view().len() == media_types@.len());
    put(attributes, "manifest_media_type_count", decimal(media_types.len() as u128));
}

fn put_index(attributes: &mut StringMap, content: &Vec<u8>)
    ensures
        final(attributes).deep_view() == with_index(old(attributes).deep_view(), content@),
{
    put(attributes, "index_json_sha256", sha256_bytes(content.as_slice()));
    if let Some(value) = parse_json(content.as_slice()) {
        if let Some(version) = whole_of_json(value.get("schemaVersion")) {
            put(attributes, "index_schema_version", decimal(version as u128));
        }
        if let Some(manifests) = list_of_json(value.get("manifests")) {
            put_manifests(attributes, manifests);
        }
    }
}

pub fn inspect_oci(bytes: &[u8], metadata: &ArchiveMetadataSummary) -> (r: ArtifactSemanticSummary)
    ensures
        r.deep_view() == oci_summary(bytes@, metadata.members.deep_view()),
{
    let mut attributes = StringMap::new();
    put(
        &mut attributes,
        "blob_count",
        decimal(count_members(NameTest::Blob, &metadata.members) as u128),
    );
    if let Some(content) = tar_member_content(bytes, "oci-layout") {
        put_layout(&mut attributes, &content);
    }
    if let Some(content) = tar_member_content(bytes, "index.json") {
        put_index(&mut attributes, &content);
    }
    summary("oci_image", attributes)
}

/// A number with at least `width` hexadecimal digits.
pub open spec fn hexadecimal(n: int, width: nat) -> Seq<char> {
    "0x"@ + zero_padded(digits_of(n as nat, 16), width)
}

fn show_hexadecimal(n: u32, width: usize) -> (r: String)
    ensures
        r@ == hexadecimal(n as int, width as nat),
{
    concat("0x", padded_digits(n as u128, 16, width).as_str())
}

/// What a PE executable says of itself.
pub open spec fn pe_summary(b: Seq<u8>) -> Option<ArtifactSemanticSummaryView> {
    let offset = u32_at(b, 0x3c);
    let coff = offset + 4;
    if b.len() < 64 || b[0] != 77 || b[1] != 90 || !stands_at(b, seq![80u8, 69, 0, 0], offset)
        || coff + 20 > b.len() {
        None
    } else {
        let v = with_attribute(Seq::empty(), "machine"@, hexadecimal(u16_at(b, coff), 4));
        let w = with_attribute(v, "section_count"@, decimal_of(u16_at(b, coff + 2)));
        let x = with_attribute(w, "coff_timestamp"@, decimal_of(u32_at(b, coff + 4)));
        let y = with_attribute(x, "optional_header_size"@, decimal_of(u16_at(b, coff + 16)));
        let z = with_attribute(y, "characteristics"@, hexadecimal(u16_at(b, coff + 18), 4));
        Some(summary_view("pe_coff"@, z))
    }
}

pub fn inspect_pe_coff(bytes: &[u8]) -> (r: Option<ArtifactSemanticSummary>)
    ensures
        r.deep_view() == pe_summary(bytes@),
{
    if bytes.len() < 64 || bytes[0] != 77 || bytes[1] != 90 {
        return None;
    }
    let offset: usize = match read_u32_le(bytes, 0x3c) {
        Some(offset) => offset as usize,
        None => {
            return None;
        },
    };
    let signature: [u8; 4] = [80u8, 69, 0, 0];
    assert(signature@ =~= seq![80u8, 69, 0, 0]);
    if !bytes_at(bytes, &signature, offset) || bytes.len() - offset < 24 {
        return None;
    }
    let coff: usize = offset + 4;
    let (machine, sections, timestamp, header, characteristics) = match (
        read_u16_le(bytes, coff),
        read_u16_le(bytes, coff + 2),
        read_u32_le(bytes, coff + 4),
        read_u16_le(bytes, coff + 16),
        read_u16_le(bytes, coff + 18),
    ) {
        (Some(a), Some(b), Some(c), Some(d), Some(e)) => (a, b, c, d, e),
        _ => {
            return None;
        },
    };
    let mut attributes = StringMap::new();
    put(&mut attributes, "machine", show_hexadecimal(machine as u32, 4));
    put(&mut attributes, "section_count", decimal(sections as u128));
    put(&mut attributes, "coff_timestamp", decimal(timestamp as u128));
    put(&mut attributes, "optional_header_size", decimal(header as u128));
    put(&mut attributes, "characteristics", show_hexadecimal(characteristics as u32, 4));
    Some(summary("pe_coff", attributes))
}

/// Four bytes as a number in either order.
pub open spec fn u32_in(b: Seq<u8>, at: int, little: bool) -> int {
    if little {
        u32_at(b, at)
    } else {
        u32_be_at(b, at)
    }
}

pub fn read_u32_endian(bytes: &[u8], offset: usize, little: bool) -> (r: Option<u32>)
    ensures
        match r {
            Some(n) => offset + 4 <= bytes@.len() && n == u32_in(bytes@, offset as int, little),
            None => offset + 4 > bytes@.len(),
        },
{
    if little {
        read_u32_le(bytes, offset)
    } else {
        read_u32_be(bytes, offset)
    }
}

/// The last identifier among the load commands from `offset` on; nothing at all where an offset
/// cannot be held.
pub open spec fn macho_uuid_from(
    b: Seq<u8>,
    offset: int,
    left: int,
    end: int,
    little: bool,
    found: Option<Seq<u8>>,
) -> Option<Option<Seq<u8>>>
    decreases left,
{
    let size = u32_in(b, offset + 4, little);
    if left <= 0 {
        Some(found)
    } else if !fits(offset + 8) {
        None
    } else if offset + 8 > end {
        Some(found)
    } else if size < 8 {
        Some(found)
    } else if !fits(offset + size) {
        None
    } else if offset + size > end {
        Some(found)
    } else {
        let own = if u32_in(b, offset, little) == 0x1b && size >= 24 {
            Some(b.subrange(offset + 8, offset + 24))
        } else {
            found
        };
        macho_uuid_from(b, offset + size, left - 1, end, little, own)
    }
}

/// Whether the mark at the beginning is that of a little-endian Mach-O file.
pub open spec fn macho_order(b: Seq<u8>) -> Option<(bool, bool)> {
    if b.len() < 4 {
        None
    } else if b[0] == 0xce && b[1] == 0xfa && b[2] == 0xed && b[3] == 0xfe {
        Some((true, false))
    } else if b[0] == 0xcf && b[1] == 0xfa && b[2] == 0xed && b[3] == 0xfe {
        Some((true, true))
    } else if b[0] == 0xfe && b[1] == 0xed && b[2] == 0xfa && b[3] == 0xce {
        Some((false, false))
    } else if b[0] == 0xfe && b[1] == 0xed && b[2] == 0xfa && b[3] == 0xcf {
        Some((false, true))
    } else {
        None
    }
}

/// The attributes of the header of a Mach-O file.
pub open spec fn macho_header(b: Seq<u8>, little: bool, is_64: bool) -> Entries {
    let u = with_attribute(
        Seq::empty(),
        "endianness"@,
        if little {
            "little"@
        } else {
            "big"@
        },
    );
    let v = with_attribute(u, "is_64_bit"@, bool_text(is_64));
    let w = with_attribute(v, "cpu_type"@, hexadecimal(u32_in(b, 4, little), 8));
    let x = with_attribute(w, "file_type"@, hexadecimal(u32_in(b, 12, little), 8));
    let y = with_attribute(x, "load_command_count"@, decimal_of(u32_in(b, 16, little)));
    with_attribute(y, "load_commands_size"@, decimal_of(u32_in(b, 20, little)))
}

/// What a Mach-O file says of itself.
pub open spec fn macho_summary(b: Seq<u8>) -> Option<ArtifactSemanticSummaryView> {
    match macho_order(b) {
        None => None,
        Some(kind) => {
            let little = kind.0;
            let header: int = if kind.1 {
                32
            } else {
                28
            };
            let commands = header + u32_in(b, 20, little);
            let end = if commands <= b.len() {
                commands
            } else {
                b.len() as int
            };
            if b.len() < header || !fits(commands) {
                None
            } else {
                match macho_uuid_from(b, header, u32_in(b, 16, little), end, little, None) {
                    None => None,
                    Some(uuid) => Some(
                        summary_view(
                            "mach_o"@,
                            match uuid {
                                Some(id) => with_attribute(
                                    macho_header(b, little, kind.1),
                                    "uuid"@,
                                    hex_of(id),
                                ),
                                None => macho_header(b, little, kind.1),
                            },
                        ),
                    ),
                }
            }
        },
    }
}

fn read_macho_order(bytes: &[u8]) -> (r: Option<(bool, bool)>)
    ensures
        r == macho_order(bytes@),
{
    if bytes.len() < 4 {
        return None;
    }
    let (a, b, c, d) = (bytes[0], bytes[1], bytes[2], bytes[3]);
    if a == 0xce && b == 0xfa && c == 0xed && d == 0xfe {
        Some((true, false))
    } else if a == 0xcf && b == 0xfa && c == 0xed && d == 0xfe {
        Some((true, true))
    } else if a == 0xfe && b == 0xed && c == 0xfa && d == 0xce {
        Some((false, false))
    } else if a == 0xfe && b == 0xed && c == 0xfa && d == 0xcf {
        Some((false, true))
    } else {
        None
    }
}

pub open spec fn nested_view(id: Option<Option<Vec<u8>>>) -> Option<Option<Seq<u8>>> {
    match id {
        Some(inner) => Some(bytes_view(inner)),
        None => None,
    }
}

fn read_macho_uuid(bytes: &[u8], header: usize, count: usize, end: usize, little: bool) -> (r: Option<
    Option<Vec<u8>>,
>)
    requires
        end <= bytes@.len(),
    ensures
        nested_view(r) == macho_uuid_from(
            bytes@,
            header as int,
            count as int,
            end as int,
            little,
            None,
        ),
{
    let mut found: Option<Vec<u8>> = None;
    let mut offset: usize = header;
    let mut left: usize = count;
    while left > 0
        invariant
            end <= bytes@.len(),
            macho_uuid_from(bytes@, header as int, count as int, end as int, little, None)
                == macho_uuid_from(
                bytes@,
                offset as int,
                left as int,
                end as int,
                little,
                bytes_view(found),
            ),
        decreases left,
    {
        if offset > usize::MAX - 8 {
            return None;
        }
        if offset + 8 > end {
            return Some(found);
        }
        let (command, size) = match (
            read_u32_endian(bytes, offset, little),
            read_u32_endian(bytes, offset + 4, little),
        ) {
            (Some(command), Some(size)) => (command, size as usize),
            _ => {
                return None;
            },
        };
        if size < 8 {
            return Some(found);
        }
        if size > usize::MAX - offset {
            return None;
        }
        if offset + size > end {
            return Some(found);
        }
        if command == 0x1b && size >= 24 {
            found = Some(copy_bytes(&bytes[offset + 8..offset + 24]));
        }
        offset = offset + size;
        left -= 1;
    }
    Some(found)
}

pub fn inspect_macho(bytes: &[u8]) -> (r: Option<ArtifactSemanticSummary>)
    ensures
        r.deep_view() == macho_summary(bytes@),
{
    let (little, is_64) = match read_macho_order(bytes) {
        Some(kind) => kind,
        None => {
            return None;
        },
    };
    let header: usize = if is_64 {
        32
    } else {
        28
    };
    if bytes.len() < header {
        return None;
    }
    let (cpu, file, count, size) = match (
        read_u32_endian(bytes, 4, little),
        read_u32_endian(bytes, 12, little),
        read_u32_endian(bytes, 16, little),
        read_u32_endian(bytes, 20, little),
    ) {
        (Some(a), Some(b), Some(c), Some(d)) => (a, b, c, d),
        _ => {
            return None;
        },
    };
    if size as usize > usize::MAX - header {
        return None;
    }
    let commands: usize = header + size as usize;
    let end: usize = if commands <= bytes.len() {
        commands
    } else {
        bytes.len()
    };
    let mut attributes = StringMap::new();
    put(
        &mut attributes,
        "endianness",
        if little {
            "little".to_owned()
        } else {
            "big".to_owned()
        },
    );
    put(&mut attributes, "is_64_bit", show_bool(is_64));
    put(&mut attributes, "cpu_type", show_hexadecimal(cpu, 8));
    put(&mut attributes, "file_type", show_hexadecimal(file, 8));
    put(&mut attributes, "load_command_count", decimal(count as u128));
    put(&mut attributes, "load_commands_size", decimal(size as u128));
    assert(attributes.deep_view() == macho_header(bytes@, little, is_64));
    match read_macho_uuid(bytes, header, count as usize, end, little) {
        None => None,
        Some(uuid) => {
            if let Some(id) = uuid {
                put(&mut attributes, "uuid", hex_text(id.as_slice()));
            }
            Some(summary("mach_o", attributes))
        },
    }
}

/// 128 to the power of `i`.
pub open spec fn leb_scale(i: int) -> int
    decreases i,
{
    if i <= 0 {
        1
    } else {
        128 * leb_scale(i - 1)
    }
}

/// The number in base 128 that bytes begin with, least significant first, and its length: a byte
/// below 128 ends it, after ten at the latest. What does not fit in 64 bits is lost.
pub open spec fn leb_from(b: Seq<u8>, index: int, value: int) -> Option<(int, int)>
    decreases 10 - index,
{
    if index >= 10 || index >= b.len() {
        None
    } else {
        let part = if index == 9 {
            b[index] as int % 2
        } else {
            b[index] as int % 128
        };
        let next = value + part * leb_scale(index);
        if b[index] < 128 {
            Some((next, index + 1))
        } else {
            leb_from(b, index + 1, next)
        }
    }
}

pub fn read_uleb128(bytes: &[u8]) -> (r: Option<(u64, usize)>)
    ensures
        match r {
            Some(found) => leb_from(bytes@, 0, 0) == Some((found.0 as int, found.1 as int))
                && found.1 <= bytes@.len(),
            None => leb_from(bytes@, 0, 0) is None,
        },
{
    let mut value: u64 = 0;
    let mut scale: u64 = 1;
    let mut index: usize = 0;
    proof {
        lemma_leb_scale();
    }
    while index < bytes.len() && index < 10
        invariant
            index <= 10,
            index <= bytes@.len(),
            index < 10 ==> scale == leb_scale(index as int),
            index < 10 ==> value < scale,
            leb_scale(0) == 1,
            leb_scale(8) == 0x100_0000_0000_0000,
            leb_scale(9) == 0x8000_0000_0000_0000,
            forall|i: int| 0 <= i < 9 ==> #[trigger] leb_scale(i) <= 0x100_0000_0000_0000,
            leb_from(bytes@, 0, 0) == leb_from(bytes@, index as int, value as int),
        decreases 10 - index,
    {
        let byte = bytes[index];
        let part: u64 = if index == 9 {
            (byte % 2) as u64
        } else {
            (byte % 128) as u64
        };
        assert(0 <= part * scale <= (if index == 9 {
            1int
        } else {
            127int
        }) * scale) by (nonlinear_arith)
            requires
                index == 9 ==> part <= 1,
                index != 9 ==> part <= 127,
                scale >= 0,
                part >= 0,
        ;
        assert(leb_scale(index as int) == scale);
        if index < 9 {
            assert(scale <= 0x100_0000_0000_0000);
        }
        value = value + part * scale;
        if byte < 128 {
            return Some((value, index + 1));
        }
        if index < 9 {
            scale = scale * 128;
            assert(leb_scale(index as int + 1) == 128 * leb_scale(index as int));
        }
        index += 1;
    }
    None
}

proof fn lemma_leb_scale()
    ensures
        leb_scale(0) == 1,
        leb_scale(8) == 0x100_0000_0000_0000,
        leb_scale(9) == 0x8000_0000_0000_0000,
        forall|i: int| 0 <= i < 9 ==> #[trigger] leb_scale(i) <= 0x100_0000_0000_0000,
{
    assert(leb_scale(0) == 1);
    assert(leb_scale(1) == 128);
    assert(leb_scale(2) == 0x4000);
    assert(leb_scale(3) == 0x20_0000);
    assert(leb_scale(4) == 0x1000_0000);
    assert(leb_scale(5) == 0x8_0000_0000);
    assert(leb_scale(6) == 0x400_0000_0000);
    assert(leb_scale(7) == 0x2_0000_0000_0000);
    assert(leb_scale(8) == 0x100_0000_0000_0000);
    assert forall|i: int| 0 <= i < 9 implies #[trigger] leb_scale(i) <= 0x100_0000_0000_0000 by {
        if i == 0 {
        } else if i == 1 {
        } else if i == 2 {
        } else if i == 3 {
        } else if i == 4 {
        } else if i == 5 {
        } else if i == 6 {
        } else if i == 7 {
        }
    }
}

/// The sections of a WebAssembly module.
#[verifier::ext_equal]
pub struct WasmSections {
    pub count: int,
    pub names: Seq<Seq<char>>,
    pub truncated: bool,
}

/// The name of a custom section between `offset` and `end`: nothing at all where it cannot be
/// read, no name where it does not lie within the section.
pub open spec fn custom_name(b: Seq<u8>, offset: int, end: int) -> Option<Option<Seq<char>>> {
    match leb_from(b.subrange(offset, end), 0, 0) {
        None => None,
        Some(found) => {
            let start = offset + found.1;
            let stop = start + found.0;
            if !fits(found.0) || !fits(stop) {
                None
            } else if stop <= end {
                Some(Some(decoded_text(b.subrange(start, stop))))
            } else {
                Some(None)
            }
        },
    }
}

/// The sections from `offset` on, after those that were found before.
pub open spec fn wasm_from(b: Seq<u8>, offset: int, count: int, names: Seq<Seq<char>>) -> Option<
    WasmSections,
>
    decreases b.len() - offset,
{
    if offset < 0 || offset >= b.len() {
        Some(WasmSections { count, names, truncated: false })
    } else if count >= MAX_WASM_SECTIONS {
        Some(WasmSections { count, names, truncated: true })
    } else {
        match leb_from(b.subrange(offset + 1, b.len() as int), 0, 0) {
            None => None,
            Some(found) => {
                let start = offset + 1 + found.1;
                let end = start + found.0;
                if !fits(found.0) || !fits(end) || end > b.len() || end < start || start <= offset {
                    None
                } else if b[offset] == 0 {
                    match custom_name(b, start, end) {
                        None => None,
                        Some(Some(name)) => wasm_from(b, end, count + 1, names.push(name)),
                        Some(None) => wasm_from(b, end, count + 1, names),
                    }
                } else {
                    wasm_from(b, end, count + 1, names)
                }
            },
        }
    }
}

/// What a WebAssembly module says of itself.
pub open spec fn wasm_summary(b: Seq<u8>) -> Option<ArtifactSemanticSummaryView> {
    if b.len() < 8 || b[0] != 0 || b[1] != 97 || b[2] != 115 || b[3] != 109 {
        None
    } else {
        match wasm_from(b, 8, 0, Seq::empty()) {
            None => None,
            Some(sections) => Some(
                ArtifactSemanticSummaryView {
                    kind: "wasm"@,
                    attributes: wasm_attributes(u32_at(b, 4), sections),
                    truncated: sections.truncated,
                },
            ),
        }
    }
}

pub open spec fn wasm_attributes(version: int, sections: WasmSections) -> Entries {
    let u = with_attribute(Seq::empty(), "version"@, decimal_of(version));
    let v = with_attribute(u, "section_count"@, decimal_of(sections.count));
    let w = with_attribute(
        v,
        "custom_section_count"@,
        decimal_of(sections.names.len() as int),
    );
    let x = with_attribute(
        w,
        "name_section_present"@,
        bool_text(crate::text::lists_text(sections.names, "name"@)),
    );
    let y = with_attribute(
        x,
        "producers_section_present"@,
        bool_text(crate::text::lists_text(sections.names, "producers"@)),
    );
    with_attribute(
        y,
        "custom_section_order_sha256"@,
        digest_text(
            encode_utf8(joined(sections.names, "\n"@, sections.names.len() as int)),
        ),
    )
}

fn lists(names: &Vec<String>, wanted: &str) -> (r: bool)
    ensures
        r == crate::text::lists_text(names.deep_view(), wanted@),
{
    let ghost view = names.deep_view();
    let mut i: usize = 0;
    while i < names.len()
        invariant
            view == names.deep_view(),
            i <= names@.len(),
            forall|k: int| 0 <= k < i ==> #[trigger] view[k] != wanted@,
        decreases names.len() - i,
    {
        assert(view[i as int] == names@[i as int]@);
        if same(names[i].as_str(), wanted) {
            return true;
        }
        i += 1;
    }
    false
}

pub open spec fn nested_text(name: Option<Option<String>>) -> Option<Option<Seq<char>>> {
    match name {
        Some(inner) => Some(inner.deep_view()),
        None => None,
    }
}

fn read_custom_name(bytes: &[u8], offset: usize, end: usize) -> (r: Option<Option<String>>)
    requires
        offset <= end <= bytes@.len(),
    ensures
        nested_text(r) == custom_name(bytes@, offset as int, end as int),
{
    match read_uleb128(&bytes[offset..end]) {
        None => None,
        Some(found) => {
            let (length, used) = found;
            let start: usize = offset + used;
            if length > (usize::MAX - start) as u64 {
                return None;
            }
            let stop: usize = start + length as usize;
            if stop <= end {
                Some(Some(decode(&bytes[start..stop])))
            } else {
                Some(None)
            }
        },
    }
}

fn summarize_wasm(version: u32, count: usize, names: Vec<String>, truncated: bool) -> (r:
    ArtifactSemanticSummary)
    ensures
        r.deep_view() == (ArtifactSemanticSummaryView {
            kind: "wasm"@,
            attributes: wasm_attributes(
                version as int,
                WasmSections { count: count as int, names: names.deep_view(), truncated },
            ),
            truncated,
        }),
{
    let mut attributes = StringMap::new();
    assert(names.deep_view().len() == names@.len());
    put(&mut attributes, "version", decimal(version as u128));
    put(&mut attributes, "section_count", decimal(count as u128));
    put(&mut attributes, "custom_section_count", decimal(names.len() as u128));
    put(&mut attributes, "name_section_present", show_bool(lists(&names, "name")));
    put(&mut attributes, "producers_section_present", show_bool(lists(&names, "producers")));
    put(
        &mut attributes,
        "custom_section_order_sha256",
        sha256_bytes(join(&names, "\n").as_str().as_bytes()),
    );
    ArtifactSemanticSummary { kind: "wasm".to_owned(), attributes, truncated }
}

pub fn inspect_wasm(bytes: &[u8]) -> (r: Option<ArtifactSemanticSummary>)
    ensures
        r.deep_view() == wasm_summary(bytes@),
{
    if bytes.len() < 8 || bytes[0] != 0 || bytes[1] != 97 || bytes[2] != 115 || bytes[3] != 109 {
        return None;
    }
    let version: u32 = match read_u32_le(bytes, 4) {
        Some(version) => version,
        None => {
            return None;
        },
    };
    let ghost whole = wasm_from(bytes@, 8, 0, Seq::empty());
    let mut offset: usize = 8;
    let mut count: usize = 0;
    let mut names: Vec<String> = Vec::new();
    assert(names.deep_view() =~= Seq::<Seq<char>>::empty());
    while offset < bytes.len()
        invariant
            bytes@.len() >= 8,
            bytes@[0] == 0 && bytes@[1] == 97 && bytes@[2] == 115 && bytes@[3] == 109,
            version == u32_at(bytes@, 4),
            offset <= bytes@.len(),
            count <= MAX_WASM_SECTIONS,
            whole == wasm_from(bytes@, 8, 0, Seq::empty()),
            whole == wasm_from(bytes@, offset as int, count as int, names.deep_view()),
        decreases bytes.len() - offset,
    {
        if count >= MAX_WASM_SECTIONS {
            return Some(summarize_wasm(version, count, names, true));
        }
        let id = bytes[offset];
        let rest = &bytes[offset + 1..bytes.len()];
        assert(rest@ == bytes@.subrange(offset + 1, bytes@.len() as int));
        let (size, used) = match read_uleb128(rest) {
            Some(found) => found,
            None => {
                return None;
            },
        };
        let start: usize = offset + 1 + used;
        if size > (usize::MAX - start) as u64 {
            return None;
        }
        let end: usize = start + size as usize;
        if end > bytes.len() {
            return None;
        }
        if id == 0 {
            match read_custom_name(bytes, start, end) {
                None => {
                    return None;
                },
                Some(name) => {
                    if let Some(text) = name {
                        let ghost had = names.deep_view();
                        let ghost view = text@;
                        names.push(text);
                        assert(names.deep_view() =~= had.push(view));
                    }
                },
            }
        }
        count += 1;
        offset = end;
    }
    Some(summarize_wasm(version, count, names, false))
}

/// What an artifact of a given type and structure says of itself, if it is of moderate size.
pub open spec fn semantic_summary(
    b: Seq<u8>,
    kind: ArtifactType,
    metadata: Option<ArchiveMetadataSummaryView>,
) -> Option<ArtifactSemanticSummaryView> {
    if b.len() > MAX_SEMANTIC_ANALYSIS_BYTES {
        None
    } else {
        match kind {
            ArtifactType::Jar => match metadata {
                Some(m) => Some(jar_summary(b, m.members)),
                None => None,
            },
            ArtifactType::PythonWheel => match metadata {
                Some(m) => Some(wheel_summary(b, m.members)),
                None => None,
            },
            ArtifactType::Deb => match metadata {
                Some(m) => Some(deb_summary(b, m.members)),
                None => None,
            },
            ArtifactType::OciImage => match metadata {
                Some(m) => Some(oci_summary(b, m.members)),
                None => None,
            },
            ArtifactType::PeCoff => pe_summary(b),
            ArtifactType::MachO => macho_summary(b),
            ArtifactType::Wasm => wasm_summary(b),
            _ => None,
        }
    }
}

pub fn inspect(
    bytes: &[u8],
    detected_type: ArtifactType,
    archive_metadata: &Option<ArchiveMetadataSummary>,
) -> (r: Option<ArtifactSemanticSummary>)
    ensures
        r.deep_view() == semantic_summary(bytes@, detected_type, archive_metadata.deep_view()),
{
    if bytes.len() as u64 > MAX_SEMANTIC_ANALYSIS_BYTES {
        return None;
    }
    match detected_type {
        ArtifactType::Jar => match archive_metadata {
            Some(m) => Some(inspect_jar(bytes, m)),
            None => None,
        },
        ArtifactType::PythonWheel => match archive_metadata {
            Some(m) => Some(inspect_wheel(bytes, m)),
            None => None,
        },
        ArtifactType::Deb => match archive_metadata {
            Some(m) => Some(inspect_deb(bytes, m)),
            None => None,
        },
        ArtifactType::OciImage => match archive_metadata {
            Some(m) => Some(inspect_oci(bytes, m)),
            None => None,
        },
        ArtifactType::PeCoff => inspect_pe_coff(bytes),
        ArtifactType::MachO => inspect_macho(bytes),
        ArtifactType::Wasm => inspect_wasm(bytes),
        _ => None,
    }
}

} // verus!
