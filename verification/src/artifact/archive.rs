//! Archive metadata: reading `ar`, `tar`, `zip` and `gzip` headers, and comparing summaries.
use vstd::prelude::*;

use crate::bytes::{big_value, bytes_at, end_before, find_bytes, fits, little_endian_integer};
use crate::bytes::{little_value, position_or_end, read_big, read_u16_le, read_u32_le, u16_at, u32_at};
use crate::model::{
    ArchiveMemberMetadata, ArchiveMemberMetadataView, ArchiveMetadataDifference,
    ArchiveMetadataDifferenceView, ArchiveMetadataField, ArchiveMetadataSummary,
    ArchiveMetadataSummaryView, ArtifactType,
};
use crate::numbers::{decimal, decimal_of, number_in, read_number, read_signed, signed_decimal};
use crate::numbers::signed_number_in;
use crate::ordering::key_view;
use crate::sorting::{option_piece, push_number, push_option_piece, sort_unique, sorted_set, Keyed};
use crate::text::{begins_with, concat3, decode, decoded_text, first_from, join, joined};
use crate::text::{same, same_list, strip_prefix, trim, trim_end, trim_start};
use crate::text::{trimmed, trimmed_end, trimmed_start, CharClass};

verus! {

pub const MAX_ARCHIVE_ANALYSIS_BYTES: u64 = 134217728;

pub const MAX_RECORDED_MEMBERS: usize = 512;

pub open spec fn field_rank(field: ArchiveMetadataField) -> int {
    match field {
        ArchiveMetadataField::MemberCount => 0,
        ArchiveMetadataField::MemberOrder => 1,
        ArchiveMetadataField::Mtime => 2,
        ArchiveMetadataField::Uid => 3,
        ArchiveMetadataField::Gid => 4,
        ArchiveMetadataField::Mode => 5,
        ArchiveMetadataField::Size => 6,
        ArchiveMetadataField::ContainerMtime => 7,
    }
}

impl Keyed for ArchiveMetadataDifference {
    open spec fn sort_key(v: ArchiveMetadataDifferenceView) -> Seq<int> {
        seq![field_rank(v.field)] + option_piece(v.member) + option_piece(v.baseline)
            + option_piece(v.variant)
    }

    fn key_numbers(&self) -> (r: Vec<u32>) {
        let mut key: Vec<u32> = Vec::new();
        let first: u32 = match self.field {
            ArchiveMetadataField::MemberCount => 0,
            ArchiveMetadataField::MemberOrder => 1,
            ArchiveMetadataField::Mtime => 2,
            ArchiveMetadataField::Uid => 3,
            ArchiveMetadataField::Gid => 4,
            ArchiveMetadataField::Mode => 5,
            ArchiveMetadataField::Size => 6,
            ArchiveMetadataField::ContainerMtime => 7,
        };
        push_number(&mut key, first);
        assert(key_view(key@) =~= seq![field_rank(self.field)]);
        push_option_piece(&mut key, &self.member);
        push_option_piece(&mut key, &self.baseline);
        push_option_piece(&mut key, &self.variant);
        key
    }
}

pub open spec fn shown_number(n: Option<int>) -> Option<Seq<char>> {
    match n {
        Some(value) => Some(decimal_of(value)),
        None => None,
    }
}

pub open spec fn wide_i64(n: Option<i64>) -> Option<int> {
    match n {
        Some(value) => Some(value as int),
        None => None,
    }
}

pub open spec fn wide_u64(n: Option<u64>) -> Option<int> {
    match n {
        Some(value) => Some(value as int),
        None => None,
    }
}

pub open spec fn wide_u32(n: Option<u32>) -> Option<int> {
    match n {
        Some(value) => Some(value as int),
        None => None,
    }
}

pub open spec fn difference_if(differs: bool, d: ArchiveMetadataDifferenceView) -> Seq<
    ArchiveMetadataDifferenceView,
> {
    if differs {
        seq![d]
    } else {
        Seq::empty()
    }
}

/// The difference between two values of one member, if there is one.
pub open spec fn value_difference(
    field: ArchiveMetadataField,
    member: Seq<char>,
    baseline: Option<int>,
    variant: Option<int>,
) -> Seq<ArchiveMetadataDifferenceView> {
    difference_if(
        baseline != variant,
        ArchiveMetadataDifferenceView {
            field,
            member: Some(member),
            baseline: shown_number(baseline),
            variant: shown_number(variant),
        },
    )
}

/// The differences between two members that go by the name of the first.
pub open spec fn member_differences(
    baseline: ArchiveMemberMetadataView,
    variant: ArchiveMemberMetadataView,
) -> Seq<ArchiveMetadataDifferenceView> {
    value_difference(
        ArchiveMetadataField::Mtime,
        baseline.name,
        wide_i64(baseline.mtime),
        wide_i64(variant.mtime),
    ) + value_difference(
        ArchiveMetadataField::Uid,
        baseline.name,
        wide_u64(baseline.uid),
        wide_u64(variant.uid),
    ) + value_difference(
        ArchiveMetadataField::Gid,
        baseline.name,
        wide_u64(baseline.gid),
        wide_u64(variant.gid),
    ) + value_difference(
        ArchiveMetadataField::Mode,
        baseline.name,
        wide_u32(baseline.mode),
        wide_u32(variant.mode),
    ) + value_difference(
        ArchiveMetadataField::Size,
        baseline.name,
        Some(baseline.size as int),
        Some(variant.size as int),
    )
}

pub open spec fn names_of(members: Seq<ArchiveMemberMetadataView>) -> Seq<Seq<char>> {
    Seq::new(members.len(), |i: int| members[i].name)
}

pub open spec fn names_are_unique(members: Seq<ArchiveMemberMetadataView>) -> bool {
    forall|i: int, j: int|
        0 <= i < j < members.len() ==> (#[trigger] members[i]).name != (#[trigger] members[j]).name
}

/// The first member at or after `from` with this name.
pub open spec fn member_named(
    members: Seq<ArchiveMemberMetadataView>,
    name: Seq<char>,
    from: int,
) -> Option<int>
    decreases members.len() - from,
{
    if from >= members.len() {
        None
    } else if members[from].name == name {
        Some(from)
    } else {
        member_named(members, name, from + 1)
    }
}

/// The differences between the first `n` baseline members and their namesakes.
pub open spec fn namesake_differences(
    baseline: Seq<ArchiveMemberMetadataView>,
    variant: Seq<ArchiveMemberMetadataView>,
    n: int,
) -> Seq<ArchiveMetadataDifferenceView>
    decreases n,
{
    if n <= 0 {
        Seq::empty()
    } else {
        namesake_differences(baseline, variant, n - 1) + match member_named(
            variant,
            baseline[n - 1].name,
            0,
        ) {
            Some(j) => member_differences(baseline[n - 1], variant[j]),
            None => Seq::empty(),
        }
    }
}

/// The differences between the first `n` members and those at the same positions, where the names
/// agree.
pub open spec fn positional_differences(
    baseline: Seq<ArchiveMemberMetadataView>,
    variant: Seq<ArchiveMemberMetadataView>,
    n: int,
) -> Seq<ArchiveMetadataDifferenceView>
    decreases n,
{
    if n <= 0 {
        Seq::empty()
    } else {
        positional_differences(baseline, variant, n - 1) + if baseline[n - 1].name == variant[n
            - 1].name {
            member_differences(baseline[n - 1], variant[n - 1])
        } else {
            Seq::empty()
        }
    }
}

/// The differences of the archives as wholes.
pub open spec fn whole_differences(
    baseline: ArchiveMetadataSummaryView,
    variant: ArchiveMetadataSummaryView,
) -> Seq<ArchiveMetadataDifferenceView> {
    let left = names_of(baseline.members);
    let right = names_of(variant.members);
    difference_if(
        baseline.member_count != variant.member_count,
        ArchiveMetadataDifferenceView {
            field: ArchiveMetadataField::MemberCount,
            member: None,
            baseline: Some(decimal_of(baseline.member_count as int)),
            variant: Some(decimal_of(variant.member_count as int)),
        },
    ) + difference_if(
        baseline.container_mtime != variant.container_mtime,
        ArchiveMetadataDifferenceView {
            field: ArchiveMetadataField::ContainerMtime,
            member: None,
            baseline: shown_number(wide_i64(baseline.container_mtime)),
            variant: shown_number(wide_i64(variant.container_mtime)),
        },
    ) + difference_if(
        left != right,
        ArchiveMetadataDifferenceView {
            field: ArchiveMetadataField::MemberOrder,
            member: None,
            baseline: Some(joined(left, ", "@, left.len() as int)),
            variant: Some(joined(right, ", "@, right.len() as int)),
        },
    )
}

/// The shorter of two lengths.
pub open spec fn common_len(a: int, b: int) -> int {
    if a <= b {
        a
    } else {
        b
    }
}

/// All differences in the order in which they are found: members are compared by name where names
/// are unique in both archives, else by position.
pub open spec fn found_differences(
    baseline: ArchiveMetadataSummaryView,
    variant: ArchiveMetadataSummaryView,
) -> Seq<ArchiveMetadataDifferenceView> {
    whole_differences(baseline, variant) + if names_are_unique(baseline.members)
        && names_are_unique(variant.members) {
        namesake_differences(baseline.members, variant.members, baseline.members.len() as int)
    } else {
        positional_differences(
            baseline.members,
            variant.members,
            common_len(baseline.members.len() as int, variant.members.len() as int),
        )
    }
}

fn push_difference(
    differences: &mut Vec<ArchiveMetadataDifference>,
    differs: bool,
    field: ArchiveMetadataField,
    member: Option<String>,
    baseline: Option<String>,
    variant: Option<String>,
)
    ensures
        final(differences).deep_view() == old(differences).deep_view() + difference_if(
            differs,
            ArchiveMetadataDifferenceView {
                field,
                member: member.deep_view(),
                baseline: baseline.deep_view(),
                variant: variant.deep_view(),
            },
        ),
{
    let ghost had = differences.deep_view();
    if differs {
        let difference = ArchiveMetadataDifference { field, member, baseline, variant };
        let ghost view = difference.deep_view();
        differences.push(difference);
        assert(differences.deep_view() =~= had + seq![view]);
    } else {
        assert(differences.deep_view() =~= had + Seq::<ArchiveMetadataDifferenceView>::empty());
    }
}

fn signed_text(n: Option<i64>) -> (r: Option<String>)
    ensures
        r.deep_view() == shown_number(wide_i64(n)),
{
    match n {
        Some(value) => Some(signed_decimal(value)),
        None => None,
    }
}

fn unsigned_text(n: Option<u64>) -> (r: Option<String>)
    ensures
        r.deep_view() == shown_number(wide_u64(n)),
{
    match n {
        Some(value) => Some(decimal(value as u128)),
        None => None,
    }
}

fn short_text(n: Option<u32>) -> (r: Option<String>)
    ensures
        r.deep_view() == shown_number(wide_u32(n)),
{
    match n {
        Some(value) => Some(decimal(value as u128)),
        None => None,
    }
}

/// Adds the differences between two members.
fn compare_member(
    baseline: &ArchiveMemberMetadata,
    variant: &ArchiveMemberMetadata,
    differences: &mut Vec<ArchiveMetadataDifference>,
)
    ensures
        final(differences).deep_view() == old(differences).deep_view() + member_differences(
            baseline.deep_view(),
            variant.deep_view(),
        ),
{
    let ghost had = differences.deep_view();
    push_difference(
        differences,
        baseline.mtime != variant.mtime,
        ArchiveMetadataField::Mtime,
        Some(baseline.name.clone()),
        signed_text(baseline.mtime),
        signed_text(variant.mtime),
    );
    push_difference(
        differences,
        baseline.uid != variant.uid,
        ArchiveMetadataField::Uid,
        Some(baseline.name.clone()),
        unsigned_text(baseline.uid),
        unsigned_text(variant.uid),
    );
    push_difference(
        differences,
        baseline.gid != variant.gid,
        ArchiveMetadataField::Gid,
        Some(baseline.name.clone()),
        unsigned_text(baseline.gid),
        unsigned_text(variant.gid),
    );
    push_difference(
        differences,
        baseline.mode != variant.mode,
        ArchiveMetadataField::Mode,
        Some(baseline.name.clone()),
        short_text(baseline.mode),
        short_text(variant.mode),
    );
    push_difference(
        differences,
        baseline.size != variant.size,
        ArchiveMetadataField::Size,
        Some(baseline.name.clone()),
        Some(decimal(baseline.size as u128)),
        Some(decimal(variant.size as u128)),
    );
    assert(differences.deep_view() =~= had + member_differences(
        baseline.deep_view(),
        variant.deep_view(),
    ));
}

fn member_names(members: &Vec<ArchiveMemberMetadata>) -> (r: Vec<String>)
    ensures
        r.deep_view() == names_of(members.deep_view()),
{
    let mut names: Vec<String> = Vec::new();
    let mut i: usize = 0;
    while i < members.len()
        invariant
            i <= members@.len(),
            names@.len() == i,
            forall|k: int| 0 <= k < i ==> (#[trigger] names@[k])@ == members@[k].name@,
        decreases members.len() - i,
    {
        names.push(members[i].name.clone());
        i += 1;
    }
    assert(names.deep_view() =~= names_of(members.deep_view()));
    names
}

fn find_member(members: &Vec<ArchiveMemberMetadata>, name: &str) -> (r: Option<usize>)
    ensures
        match r {
            Some(j) => j < members@.len() && member_named(members.deep_view(), name@, 0) == Some(
                j as int,
            ),
            None => member_named(members.deep_view(), name@, 0) is None,
        },
{
    let mut i: usize = 0;
    while i < members.len()
        invariant
            i <= members@.len(),
            member_named(members.deep_view(), name@, 0) == member_named(
                members.deep_view(),
                name@,
                i as int,
            ),
        decreases members.len() - i,
    {
        assert(members.deep_view()[i as int].name == members@[i as int].name@);
        if same(members[i].name.as_str(), name) {
            return Some(i);
        }
        i += 1;
    }
    None
}

/// Whether no two members share a name.
fn unique_members_by_name(members: &Vec<ArchiveMemberMetadata>) -> (r: bool)
    ensures
        r == names_are_unique(members.deep_view()),
{
    let ghost view = members.deep_view();
    let mut i: usize = 0;
    while i < members.len()
        invariant
            view == members.deep_view(),
            i <= members@.len(),
            forall|a: int, b: int|
                0 <= a < b < i ==> (#[trigger] view[a]).name != (#[trigger] view[b]).name,
        decreases members.len() - i,
    {
        let mut j: usize = 0;
        while j < i
            invariant
                view == members.deep_view(),
                i < members@.len(),
                j <= i,
                forall|a: int| 0 <= a < j ==> (#[trigger] view[a]).name != view[i as int].name,
            decreases i - j,
        {
            assert(view[j as int].name == members@[j as int].name@);
            assert(view[i as int].name == members@[i as int].name@);
            if members[j].name == members[i].name {
                return false;
            }
            j += 1;
        }
        i += 1;
    }
    true
}

/// How two archives differ in structure, in the order of field, member and values.
pub fn compare(baseline: &ArchiveMetadataSummary, variant: &ArchiveMetadataSummary) -> (r: Vec<
    ArchiveMetadataDifference,
>)
    ensures
        r.deep_view() == sorted_set::<ArchiveMetadataDifference>(
            found_differences(baseline.deep_view(), variant.deep_view()),
        ),
{
    let mut differences: Vec<ArchiveMetadataDifference> = Vec::new();
    assert(differences.deep_view() =~= Seq::<ArchiveMetadataDifferenceView>::empty());
    push_difference(
        &mut differences,
        baseline.member_count != variant.member_count,
        ArchiveMetadataField::MemberCount,
        None,
        Some(decimal(baseline.member_count as u128)),
        Some(decimal(variant.member_count as u128)),
    );
    push_difference(
        &mut differences,
        baseline.container_mtime != variant.container_mtime,
        ArchiveMetadataField::ContainerMtime,
        None,
        signed_text(baseline.container_mtime),
        signed_text(variant.container_mtime),
    );
    let left = member_names(&baseline.members);
    let right = member_names(&variant.members);
    push_difference(
        &mut differences,
        !same_list(&left, &right),
        ArchiveMetadataField::MemberOrder,
        None,
        Some(join(&left, ", ")),
        Some(join(&right, ", ")),
    );
    let ghost whole = whole_differences(baseline.deep_view(), variant.deep_view());
    assert(differences.deep_view() =~= whole);
    let ghost b = baseline.members.deep_view();
    let ghost v = variant.members.deep_view();
    if unique_members_by_name(&baseline.members) && unique_members_by_name(&variant.members) {
        let mut n: usize = 0;
        assert(whole + namesake_differences(b, v, 0) =~= whole);
        while n < baseline.members.len()
            invariant
                b == baseline.members.deep_view(),
                v == variant.members.deep_view(),
                n <= baseline.members@.len(),
                differences.deep_view() == whole + namesake_differences(b, v, n as int),
            decreases baseline.members.len() - n,
        {
            assert(b[n as int] == baseline.members@[n as int].deep_view());
            match find_member(&variant.members, baseline.members[n].name.as_str()) {
                Some(j) => {
                    assert(v[j as int] == variant.members@[j as int].deep_view());
                    compare_member(&baseline.members[n], &variant.members[j], &mut differences);
                },
                None => {},
            }
            n += 1;
            assert(differences.deep_view() =~= whole + namesake_differences(b, v, n as int));
        }
    } else {
        let common: usize = if baseline.members.len() <= variant.members.len() {
            baseline.members.len()
        } else {
            variant.members.len()
        };
        let mut n: usize = 0;
        assert(whole + positional_differences(b, v, 0) =~= whole);
        while n < common
            invariant
                b == baseline.members.deep_view(),
                v == variant.members.deep_view(),
                n <= common <= baseline.members@.len(),
                common <= variant.members@.len(),
                differences.deep_view() == whole + positional_differences(b, v, n as int),
            decreases common - n,
        {
            assert(b[n as int] == baseline.members@[n as int].deep_view());
            assert(v[n as int] == variant.members@[n as int].deep_view());
            if baseline.members[n].name == variant.members[n].name {
                compare_member(&baseline.members[n], &variant.members[n], &mut differences);
            }
            n += 1;
            assert(differences.deep_view() =~= whole + positional_differences(b, v, n as int));
        }
    }
    sort_unique(differences)
}

proof fn lemma_same_member(m: ArchiveMemberMetadataView)
    ensures
        member_differences(m, m).len() == 0,
{
}

proof fn lemma_member_found(members: Seq<ArchiveMemberMetadataView>, i: int, from: int)
    requires
        names_are_unique(members),
        0 <= from <= i < members.len(),
    ensures
        member_named(members, members[i].name, from) == Some(i),
    decreases i - from,
{
    if from < i {
        lemma_member_found(members, i, from + 1);
    }
}

proof fn lemma_no_namesake_differences(members: Seq<ArchiveMemberMetadataView>, n: int)
    requires
        names_are_unique(members),
        0 <= n <= members.len(),
    ensures
        namesake_differences(members, members, n).len() == 0,
    decreases n,
{
    if n > 0 {
        lemma_no_namesake_differences(members, n - 1);
        lemma_member_found(members, n - 1, 0);
        lemma_same_member(members[n - 1]);
    }
}

proof fn lemma_no_positional_differences(members: Seq<ArchiveMemberMetadataView>, n: int)
    ensures
        positional_differences(members, members, n).len() == 0,
    decreases n,
{
    if n > 0 {
        lemma_no_positional_differences(members, n - 1);
        lemma_same_member(members[n - 1]);
    }
}

/// An archive does not differ from itself.
pub proof fn law_equal_archives_have_no_differences(summary: ArchiveMetadataSummaryView)
    ensures
        sorted_set::<ArchiveMetadataDifference>(found_differences(summary, summary)).len() == 0,
{
    if names_are_unique(summary.members) {
        lemma_no_namesake_differences(summary.members, summary.members.len() as int);
    } else {
        lemma_no_positional_differences(summary.members, summary.members.len() as int);
    }
    assert(found_differences(summary, summary).len() == 0);
}


/// A header field as text, without its padding.
pub open spec fn field_text(b: Seq<u8>) -> Seq<char> {
    trimmed(decoded_text(b), CharClass::Padding)
}

pub fn ascii_field(bytes: &[u8]) -> (r: String)
    ensures
        r@ == field_text(bytes@),
{
    trim(decode(bytes).as_str(), CharClass::Padding)
}

/// A decimal field.
pub open spec fn decimal_field(b: Seq<u8>) -> Option<int> {
    number_in(field_text(b), 10, u64::MAX as int)
}

/// A signed decimal field.
pub open spec fn signed_field(b: Seq<u8>) -> Option<int> {
    signed_number_in(field_text(b), 10, i64::MIN as int, i64::MAX as int)
}

/// An octal field up to `max`. Nothing but zeros, or nothing at all, is zero.
pub open spec fn octal_field(b: Seq<u8>, max: int) -> Option<int> {
    let digits = trimmed_start(field_text(b), CharClass::One('0'));
    if digits.len() == 0 {
        Some(0)
    } else {
        number_in(digits, 8, max)
    }
}

pub fn parse_decimal_i64(bytes: &[u8]) -> (r: Option<i64>)
    ensures
        wide_i64(r) == signed_field(bytes@),
{
    read_signed(ascii_field(bytes).as_str(), 10)
}

pub fn parse_decimal_u64(bytes: &[u8]) -> (r: Option<u64>)
    ensures
        wide_u64(r) == decimal_field(bytes@),
{
    read_number(ascii_field(bytes).as_str(), 10, 0xffff_ffff_ffff_ffff)
}

pub fn parse_octal_u64(bytes: &[u8]) -> (r: Option<u64>)
    ensures
        wide_u64(r) == octal_field(bytes@, u64::MAX as int),
{
    let digits = trim_start(ascii_field(bytes).as_str(), CharClass::One('0'));
    if digits.as_str().is_empty() {
        Some(0)
    } else {
        read_number(digits.as_str(), 8, 0xffff_ffff_ffff_ffff)
    }
}

pub fn parse_octal_u32(bytes: &[u8]) -> (r: Option<u32>)
    ensures
        wide_u32(r) == octal_field(bytes@, u32::MAX as int),
{
    let digits = trim_start(ascii_field(bytes).as_str(), CharClass::One('0'));
    if digits.as_str().is_empty() {
        Some(0)
    } else {
        match read_number(digits.as_str(), 8, 0xffff_ffff) {
            Some(n) => Some(n as u32),
            None => None,
        }
    }
}

/// A number in a tar header: base 256 where the first bit is set, else octal.
pub open spec fn tar_number(b: Seq<u8>) -> Option<int> {
    if b.len() > 0 && b[0] >= 128 {
        let value = big_value(b.update(0, (b[0] - 128) as u8));
        if value > u64::MAX {
            None
        } else {
            Some(value)
        }
    } else {
        octal_field(b, u64::MAX as int)
    }
}

pub fn parse_tar_number(bytes: &[u8]) -> (r: Option<u64>)
    ensures
        wide_u64(r) == tar_number(bytes@),
{
    if bytes.len() > 0 && bytes[0] >= 128 {
        let mut digits: Vec<u8> = Vec::new();
        digits.push(bytes[0] - 128);
        let mut i: usize = 1;
        while i < bytes.len()
            invariant
                1 <= i <= bytes@.len(),
                bytes@[0] >= 128,
                digits@.len() == i,
                digits@[0] == bytes@[0] - 128,
                forall|k: int| 1 <= k < i ==> digits@[k] == bytes@[k],
            decreases bytes.len() - i,
        {
            digits.push(bytes[i]);
            i += 1;
        }
        assert(digits@ =~= bytes@.update(0, (bytes@[0] - 128) as u8));
        return read_big(&digits);
    }
    parse_octal_u64(bytes)
}

/// The text before the first NUL.
pub open spec fn nul_text(b: Seq<u8>) -> Seq<char> {
    decoded_text(b.subrange(0, end_before(b, 0, 0)))
}

pub fn nul_terminated(bytes: &[u8]) -> (r: String)
    ensures
        r@ == nul_text(bytes@),
{
    let end = position_or_end(bytes, 0);
    decode(&bytes[0..end])
}

/// The text in a part of a header, or nothing where the header is too short.
pub open spec fn header_text(header: Seq<u8>, from: int, to: int) -> Seq<char> {
    if to <= header.len() {
        nul_text(header.subrange(from, to))
    } else {
        Seq::empty()
    }
}

fn read_header_text(header: &[u8], from: usize, to: usize) -> (r: String)
    requires
        from <= to,
    ensures
        r@ == header_text(header@, from as int, to as int),
{
    if to <= header.len() {
        nul_terminated(&header[from..to])
    } else {
        String::new()
    }
}

/// The name in a tar header, with its prefix in front.
pub open spec fn tar_header_name(header: Seq<u8>) -> Seq<char> {
    let name = header_text(header, 0, 100);
    let prefix = header_text(header, 345, 500);
    if prefix.len() == 0 {
        name
    } else if name.len() == 0 {
        prefix
    } else {
        prefix + "/"@ + name
    }
}

pub fn tar_name(header: &[u8]) -> (r: String)
    ensures
        r@ == tar_header_name(header@),
{
    let name = read_header_text(header, 0, 100);
    let prefix = read_header_text(header, 345, 500);
    if prefix.as_str().is_empty() {
        name
    } else if name.as_str().is_empty() {
        prefix
    } else {
        concat3(prefix.as_str(), "/", name.as_str())
    }
}

/// What reading an archive has collected.
#[verifier::ext_equal]
pub struct Collected {
    pub seen: bool,
    pub count: int,
    pub members: Seq<ArchiveMemberMetadataView>,
}

/// `members` with one more, as long as there is room.
pub open spec fn recorded(
    members: Seq<ArchiveMemberMetadataView>,
    member: ArchiveMemberMetadataView,
) -> Seq<ArchiveMemberMetadataView> {
    if members.len() < MAX_RECORDED_MEMBERS {
        members.push(member)
    } else {
        members
    }
}

fn record(members: &mut Vec<ArchiveMemberMetadata>, member: ArchiveMemberMetadata)
    ensures
        final(members).deep_view() == recorded(old(members).deep_view(), member.deep_view()),
{
    let ghost had = members.deep_view();
    let ghost view = member.deep_view();
    if members.len() < MAX_RECORDED_MEMBERS {
        members.push(member);
        assert(members.deep_view() =~= had.push(view));
    }
}

/// The summary of an archive from what has been collected, if anything was seen.
pub open spec fn summary_of(format: Seq<char>, found: Option<Collected>) -> Option<
    ArchiveMetadataSummaryView,
> {
    match found {
        Some(c) => if c.seen {
            Some(
                ArchiveMetadataSummaryView {
                    format,
                    member_count: c.count as usize,
                    members: c.members,
                    truncated: c.count > MAX_RECORDED_MEMBERS,
                    container_mtime: None,
                },
            )
        } else {
            None
        },
        None => None,
    }
}

fn summarize(format: &str, seen: bool, count: usize, members: Vec<ArchiveMemberMetadata>) -> (r:
    Option<ArchiveMetadataSummary>)
    ensures
        r.deep_view() == summary_of(
            format@,
            Some(Collected { seen, count: count as int, members: members.deep_view() }),
        ),
{
    if !seen {
        return None;
    }
    Some(
        ArchiveMetadataSummary {
            format: format.to_owned(),
            member_count: count,
            members,
            truncated: count > MAX_RECORDED_MEMBERS,
            container_mtime: None,
        },
    )
}

/// A header of nothing but zeros.
pub open spec fn is_zero_block(b: Seq<u8>) -> bool {
    forall|i: int| 0 <= i < b.len() ==> #[trigger] b[i] == 0
}

fn zero_block(bytes: &[u8]) -> (r: bool)
    ensures
        r == is_zero_block(bytes@),
{
    let mut i: usize = 0;
    while i < bytes.len()
        invariant
            i <= bytes@.len(),
            forall|k: int| 0 <= k < i ==> #[trigger] bytes@[k] == 0,
        decreases bytes.len() - i,
    {
        if bytes[i] != 0 {
            return false;
        }
        i += 1;
    }
    true
}

pub open spec fn narrow_i64(n: Option<int>) -> Option<i64> {
    match n {
        Some(value) => if value <= i64::MAX {
            Some(value as i64)
        } else {
            None
        },
        None => None,
    }
}

pub open spec fn narrow_u32(n: Option<int>) -> Option<u32> {
    match n {
        Some(value) => if value <= u32::MAX {
            Some(value as u32)
        } else {
            None
        },
        None => None,
    }
}

pub open spec fn narrow_u64(n: Option<int>) -> Option<u64> {
    match n {
        Some(value) => Some(value as u64),
        None => None,
    }
}

/// What one step of reading an archive finds.
pub enum Step {
    /// The archive cannot be read.
    Broken,
    /// There is nothing more to read; the flag says whether a header was seen here.
    Done(bool),
    /// A record that carries no member: the long name it gives to the next one, if it does, and
    /// where the next record begins.
    Aside(Option<Seq<char>>, int),
    /// A member, and where the next record begins.
    Member(ArchiveMemberMetadataView, int),
}

/// The padded size of the data of a tar member.
pub open spec fn padded_size(size: int) -> int {
    (size + 511) / 512 * 512
}

/// What stands in a tar archive at `offset`.
pub open spec fn tar_step(b: Seq<u8>, offset: int, count: int, pending: Option<Seq<char>>) -> Step {
    let header = b.subrange(offset, offset + 512);
    let size = tar_number(header.subrange(124, 136));
    if !fits(offset + 512) {
        Step::Broken
    } else if offset + 512 > b.len() || is_zero_block(header) {
        Step::Done(false)
    } else if size is None || size->0 + 511 > u64::MAX || !fits(padded_size(size->0)) || !fits(
        offset + 512 + padded_size(size->0),
    ) {
        Step::Broken
    } else if offset + 512 + padded_size(size->0) > b.len() {
        Step::Done(true)
    } else {
        let end = offset + 512 + padded_size(size->0);
        if header[156] == 76 {
            Step::Aside(
                Some(
                    trimmed_end(
                        trimmed_end(
                            decoded_text(b.subrange(offset + 512, offset + 512 + size->0)),
                            CharClass::One('\0'),
                        ),
                        CharClass::One('\n'),
                    ),
                ),
                end,
            )
        } else if header[156] == 120 || header[156] == 103 || header[156] == 75 {
            Step::Aside(pending, end)
        } else {
            Step::Member(
                ArchiveMemberMetadataView {
                    index: count as usize,
                    name: match pending {
                        Some(name) => name,
                        None => tar_header_name(header),
                    },
                    size: size->0 as u64,
                    mtime: narrow_i64(tar_number(header.subrange(136, 148))),
                    uid: narrow_u64(tar_number(header.subrange(108, 116))),
                    gid: narrow_u64(tar_number(header.subrange(116, 124))),
                    mode: narrow_u32(tar_number(header.subrange(100, 108))),
                },
                end,
            )
        }
    }
}

/// What reading a tar archive from `offset` on collects.
pub open spec fn tar_from(
    b: Seq<u8>,
    offset: int,
    pending: Option<Seq<char>>,
    so_far: Collected,
) -> Option<Collected>
    decreases b.len() - offset,
{
    match tar_step(b, offset, so_far.count, pending) {
        Step::Broken => None,
        Step::Done(seen) => Some(Collected { seen: so_far.seen || seen, ..so_far }),
        Step::Aside(name, next) => if next <= offset || next > b.len() {
            None
        } else {
            tar_from(b, next, name, Collected { seen: true, ..so_far })
        },
        Step::Member(member, next) => if next <= offset || next > b.len() {
            None
        } else {
            tar_from(
                b,
                next,
                None,
                Collected {
                    seen: true,
                    count: so_far.count + 1,
                    members: recorded(so_far.members, member),
                },
            )
        },
    }
}

pub open spec fn nothing_collected(seen: bool) -> Collected {
    Collected { seen, count: 0, members: Seq::empty() }
}

/// The structure of a tar archive.
pub open spec fn tar_summary(b: Seq<u8>) -> Option<ArchiveMetadataSummaryView> {
    if b.len() < 512 {
        None
    } else {
        summary_of("tar"@, tar_from(b, 0, None, nothing_collected(false)))
    }
}

fn small_signed(n: Option<u64>) -> (r: Option<i64>)
    ensures
        r == narrow_i64(wide_u64(n)),
{
    match n {
        Some(value) => if value <= 0x7fff_ffff_ffff_ffff {
            Some(value as i64)
        } else {
            None
        },
        None => None,
    }
}

fn small_u32(n: Option<u64>) -> (r: Option<u32>)
    ensures
        r == narrow_u32(wide_u64(n)),
{
    match n {
        Some(value) => if value <= 0xffff_ffff {
            Some(value as u32)
        } else {
            None
        },
        None => None,
    }
}

proof fn lemma_padded_size(size: int)
    requires
        size >= 0,
    ensures
        size <= padded_size(size) <= size + 511,
{
}

pub fn inspect_tar(bytes: &[u8]) -> (r: Option<ArchiveMetadataSummary>)
    ensures
        r.deep_view() == tar_summary(bytes@),
{
    if bytes.len() < 512 {
        return None;
    }
    let mut offset: usize = 0;
    let mut count: usize = 0;
    let mut members: Vec<ArchiveMemberMetadata> = Vec::new();
    let mut pending: Option<String> = None;
    let mut seen = false;
    assert(members.deep_view() =~= Seq::<ArchiveMemberMetadataView>::empty());
    loop
        invariant
            bytes@.len() >= 512,
            offset <= bytes@.len(),
            count <= offset,
            tar_summary(bytes@) == summary_of(
                "tar"@,
                tar_from(
                    bytes@,
                    offset as int,
                    pending.deep_view(),
                    Collected { seen, count: count as int, members: members.deep_view() },
                ),
            ),
        decreases bytes.len() - offset,
    {
        let ghost step = tar_step(bytes@, offset as int, count as int, pending.deep_view());
        if offset > usize::MAX - 512 {
            assert(step is Broken);
            return None;
        }
        if offset + 512 > bytes.len() {
            assert(step == Step::Done(false));
            return summarize("tar", seen, count, members);
        }
        let header = &bytes[offset..offset + 512];
        assert(header@ == bytes@.subrange(offset as int, offset + 512));
        if zero_block(header) {
            assert(step == Step::Done(false));
            return summarize("tar", seen, count, members);
        }
        let size = match parse_tar_number(&header[124..136]) {
            Some(size) => size,
            None => {
                assert(step is Broken);
                return None;
            },
        };
        if size > 0xffff_ffff_ffff_ffff - 511 {
            assert(step is Broken);
            return None;
        }
        proof {
            lemma_padded_size(size as int);
        }
        let padded: u64 = (size + 511) / 512 * 512;
        let start: usize = offset + 512;
        if padded > (usize::MAX - start) as u64 {
            assert(step is Broken);
            return None;
        }
        let end: usize = start + padded as usize;
        if end > bytes.len() {
            assert(step == Step::Done(true));
            return summarize("tar", true, count, members);
        }
        let kind = header[156];
        if kind == 76 {
            let name = trim_end(
                trim_end(
                    decode(&bytes[start..start + size as usize]).as_str(),
                    CharClass::One('\0'),
                ).as_str(),
                CharClass::One('\n'),
            );
            assert(step == Step::Aside(Some(name@), end as int));
            pending = Some(name);
            seen = true;
            offset = end;
            continue ;
        }
        if kind == 120 || kind == 103 || kind == 75 {
            assert(step == Step::Aside(pending.deep_view(), end as int));
            seen = true;
            offset = end;
            continue ;
        }
        let name = match &pending {
            Some(name) => name.clone(),
            None => tar_name(header),
        };
        let member = ArchiveMemberMetadata {
            index: count,
            name,
            size,
            mtime: small_signed(parse_tar_number(&header[136..148])),
            uid: parse_tar_number(&header[108..116]),
            gid: parse_tar_number(&header[116..124]),
            mode: small_u32(parse_tar_number(&header[100..108])),
        };
        assert(step == Step::Member(member.deep_view(), end as int));
        record(&mut members, member);
        pending = None;
        seen = true;
        count += 1;
        offset = end;
    }
}


/// `!<arch>` and a line feed.
pub open spec fn ar_magic() -> Seq<u8> {
    seq![33u8, 60, 97, 114, 99, 104, 62, 10]
}

/// Where a name in a string table ends: at a slash before a line feed, else at a line feed.
pub open spec fn table_name_end(tail: Seq<u8>) -> int {
    match first_from(tail, seq![47u8, 10], 0) {
        Some(at) => at,
        None => end_before(tail, 10, 0),
    }
}

/// The number that stands behind `prefix` in the raw name of an `ar` member.
pub open spec fn ar_reference(raw: Seq<char>, prefix: Seq<char>) -> Option<int> {
    if begins_with(raw, prefix) {
        number_in(
            trimmed(raw.skip(prefix.len() as int), CharClass::White),
            10,
            usize::MAX as int,
        )
    } else {
        None
    }
}

/// The name and the size of an `ar` member. `#1/n` puts the name into the first `n` bytes of the
/// data, `/n` into the string table; else the raw name ends at a slash.
pub open spec fn ar_member_name(
    raw: Seq<char>,
    data: Seq<u8>,
    table: Option<Seq<u8>>,
    size: int,
) -> (Seq<char>, int) {
    let inline = ar_reference(raw, "#1/"@);
    let index = ar_reference(raw, "/"@);
    if inline is Some && inline->0 <= data.len() {
        (
            trimmed_end(decoded_text(data.subrange(0, inline->0)), CharClass::One('\0')),
            if size >= inline->0 {
                size - inline->0
            } else {
                0
            },
        )
    } else if index is Some && table is Some && index->0 <= table->0.len() {
        let tail = table->0.skip(index->0);
        (
            trimmed_end(
                decoded_text(tail.subrange(0, table_name_end(tail))),
                CharClass::One('/'),
            ),
            size,
        )
    } else {
        (trimmed(trimmed_end(raw, CharClass::One('/')), CharClass::White), size)
    }
}

fn read_reference(raw: &str, prefix: &str) -> (r: Option<usize>)
    ensures
        match r {
            Some(n) => ar_reference(raw@, prefix@) == Some(n as int),
            None => ar_reference(raw@, prefix@) is None,
        },
{
    match strip_prefix(raw, prefix) {
        Some(rest) => match read_number(
            trim(rest.as_str(), CharClass::White).as_str(),
            10,
            usize::MAX as u64,
        ) {
            Some(n) => Some(n as usize),
            None => None,
        },
        None => None,
    }
}

pub fn resolve_ar_name(raw: &str, data: &[u8], table: Option<&[u8]>, size: u64) -> (r: (String, u64))
    ensures
        (r.0@, r.1 as int) == ar_member_name(
            raw@,
            data@,
            match table {
                Some(bytes) => Some(bytes@),
                None => None,
            },
            size as int,
        ),
{
    if let Some(length) = read_reference(raw, "#1/") {
        if length <= data.len() {
            let name = trim_end(decode(&data[0..length]).as_str(), CharClass::One('\0'));
            return (name, size.saturating_sub(length as u64));
        }
    }
    if let Some(index) = read_reference(raw, "/") {
        if let Some(bytes) = table {
            if index <= bytes.len() {
                let tail = &bytes[index..bytes.len()];
                assert(tail@ =~= bytes@.skip(index as int));
                let mark: [u8; 2] = [47u8, 10];
                assert(mark@ =~= seq![47u8, 10]);
                let end = match find_bytes(tail, &mark, 0) {
                    Some(at) => at,
                    None => position_or_end(tail, 10),
                };
                let name = trim_end(decode(&tail[0..end]).as_str(), CharClass::One('/'));
                return (name, size);
            }
        }
    }
    (
        trim(trim_end(raw, CharClass::One('/')).as_str(), CharClass::White),
        size,
    )
}

/// What one step of reading an `ar` archive finds.
pub enum ArStep {
    Broken,
    Done,
    /// The string table, and where the next record begins.
    Table(Seq<u8>, int),
    /// A symbol table, and where the next record begins.
    Symbols(int),
    Member(ArchiveMemberMetadataView, int),
}

/// What stands in an `ar` archive at `offset`.
pub open spec fn ar_step(b: Seq<u8>, offset: int, count: int, table: Option<Seq<u8>>) -> ArStep {
    let header = b.subrange(offset, offset + 60);
    let size = decimal_field(header.subrange(48, 58));
    let raw = field_text(header.subrange(0, 16));
    if !fits(offset + 60) {
        ArStep::Broken
    } else if offset + 60 > b.len() || header[58] != 96 || header[59] != 10 {
        ArStep::Done
    } else if size is None || !fits(size->0) || !fits(offset + 60 + size->0) {
        ArStep::Broken
    } else if offset + 60 + size->0 > b.len() {
        ArStep::Done
    } else if !fits(offset + 60 + size->0 + size->0 % 2) {
        ArStep::Broken
    } else {
        let data = b.subrange(offset + 60, offset + 60 + size->0);
        let next = offset + 60 + size->0 + size->0 % 2;
        if raw == "//"@ {
            ArStep::Table(data, next)
        } else if raw == "/"@ || raw == "/SYM64/"@ {
            ArStep::Symbols(next)
        } else {
            let named = ar_member_name(raw, data, table, size->0);
            ArStep::Member(
                ArchiveMemberMetadataView {
                    index: count as usize,
                    name: named.0,
                    size: named.1 as u64,
                    mtime: match signed_field(header.subrange(16, 28)) {
                        Some(n) => Some(n as i64),
                        None => None,
                    },
                    uid: narrow_u64(decimal_field(header.subrange(28, 34))),
                    gid: narrow_u64(decimal_field(header.subrange(34, 40))),
                    mode: narrow_u32(octal_field(header.subrange(40, 48), u32::MAX as int)),
                },
                next,
            )
        }
    }
}

/// What reading an `ar` archive from `offset` on collects.
pub open spec fn ar_from(b: Seq<u8>, offset: int, table: Option<Seq<u8>>, so_far: Collected) -> Option<
    Collected,
>
    decreases b.len() + 1 - offset,
{
    match ar_step(b, offset, so_far.count, table) {
        ArStep::Broken => None,
        ArStep::Done => Some(so_far),
        ArStep::Table(data, next) => if next <= offset || next > b.len() + 1 {
            None
        } else {
            ar_from(b, next, Some(data), so_far)
        },
        ArStep::Symbols(next) => if next <= offset || next > b.len() + 1 {
            None
        } else {
            ar_from(b, next, table, so_far)
        },
        ArStep::Member(member, next) => if next <= offset || next > b.len() + 1 {
            None
        } else {
            ar_from(
                b,
                next,
                table,
                Collected {
                    seen: so_far.seen,
                    count: so_far.count + 1,
                    members: recorded(so_far.members, member),
                },
            )
        },
    }
}

/// The structure of an `ar` archive.
pub open spec fn ar_summary(b: Seq<u8>) -> Option<ArchiveMetadataSummaryView> {
    if !begins_with(b, ar_magic()) {
        None
    } else {
        summary_of("ar"@, ar_from(b, 8, None, nothing_collected(true)))
    }
}

pub open spec fn slice_view(table: Option<&[u8]>) -> Option<Seq<u8>> {
    match table {
        Some(bytes) => Some(bytes@),
        None => None,
    }
}

pub fn inspect_ar(bytes: &[u8]) -> (r: Option<ArchiveMetadataSummary>)
    ensures
        r.deep_view() == ar_summary(bytes@),
{
    let magic: [u8; 8] = [33u8, 60, 97, 114, 99, 104, 62, 10];
    assert(magic@ =~= ar_magic());
    if !bytes_at(bytes, &magic, 0) {
        return None;
    }
    let mut offset: usize = 8;
    let mut count: usize = 0;
    let mut members: Vec<ArchiveMemberMetadata> = Vec::new();
    let mut table: Option<&[u8]> = None;
    assert(members.deep_view() =~= Seq::<ArchiveMemberMetadataView>::empty());
    loop
        invariant
            8 <= offset <= bytes@.len() + 1,
            count <= offset,
            ar_summary(bytes@) == summary_of(
                "ar"@,
                ar_from(
                    bytes@,
                    offset as int,
                    slice_view(table),
                    Collected { seen: true, count: count as int, members: members.deep_view() },
                ),
            ),
        decreases bytes.len() + 1 - offset,
    {
        let ghost step = ar_step(bytes@, offset as int, count as int, slice_view(table));
        if offset > usize::MAX - 60 {
            assert(step is Broken);
            return None;
        }
        if offset + 60 > bytes.len() {
            assert(step is Done);
            return summarize("ar", true, count, members);
        }
        let header = &bytes[offset..offset + 60];
        assert(header@ == bytes@.subrange(offset as int, offset + 60));
        if header[58] != 96 || header[59] != 10 {
            assert(step is Done);
            return summarize("ar", true, count, members);
        }
        let raw = ascii_field(&header[0..16]);
        let size = match parse_decimal_u64(&header[48..58]) {
            Some(size) => size,
            None => {
                assert(step is Broken);
                return None;
            },
        };
        let start: usize = offset + 60;
        if size > (usize::MAX - start) as u64 {
            assert(step is Broken);
            return None;
        }
        let end: usize = start + size as usize;
        if end > bytes.len() {
            assert(step is Done);
            return summarize("ar", true, count, members);
        }
        let odd: usize = (size % 2) as usize;
        if odd > usize::MAX - end {
            assert(step is Broken);
            return None;
        }
        let next: usize = end + odd;
        let data = &bytes[start..end];
        assert(data@ == bytes@.subrange(start as int, end as int));
        if same(raw.as_str(), "//") {
            assert(step == ArStep::Table(data@, next as int));
            table = Some(data);
        } else if same(raw.as_str(), "/") || same(raw.as_str(), "/SYM64/") {
            assert(step == ArStep::Symbols(next as int));
        } else {
            let (name, logical) = resolve_ar_name(raw.as_str(), data, table, size);
            let member = ArchiveMemberMetadata {
                index: count,
                name,
                size: logical,
                mtime: parse_decimal_i64(&header[16..28]),
                uid: parse_decimal_u64(&header[28..34]),
                gid: parse_decimal_u64(&header[34..40]),
                mode: parse_octal_u32(&header[40..48]),
            };
            assert(step == ArStep::Member(member.deep_view(), next as int));
            record(&mut members, member);
            count += 1;
        }
        offset = next;
    }
}

/// The seconds since 1970 of a DOS date and time, if they are in range.
pub open spec fn dos_seconds(date: int, time: int) -> Option<int> {
    let year = 1980 + date / 512;
    let month = date / 32 % 16;
    let day = date % 32;
    let hour = time / 2048;
    let minute = time / 32 % 64;
    let second = time % 32 * 2;
    if !(1 <= month <= 12) || !(1 <= day <= 31) || hour > 23 || minute > 59 || second > 59 {
        None
    } else {
        Some(
            days_since_epoch(year, month, day) * 86_400 + hour * 3_600 + minute * 60 + second,
        )
    }
}

pub open spec fn is_leap_year(year: int) -> bool {
    year % 4 == 0 && (year % 100 != 0 || year % 400 == 0)
}

/// How many leap years there are from year 1 to `year`.
pub open spec fn leap_years_to(year: int) -> int {
    year / 4 - year / 100 + year / 400
}

/// How many days of `year` come before the first of `month`.
pub open spec fn days_before_month(year: int, month: int) -> int {
    let leap: int = if is_leap_year(year) {
        1
    } else {
        0
    };
    if month == 1 {
        0
    } else if month == 2 {
        31
    } else if month == 3 {
        59 + leap
    } else if month == 4 {
        90 + leap
    } else if month == 5 {
        120 + leap
    } else if month == 6 {
        151 + leap
    } else if month == 7 {
        181 + leap
    } else if month == 8 {
        212 + leap
    } else if month == 9 {
        243 + leap
    } else if month == 10 {
        273 + leap
    } else if month == 11 {
        304 + leap
    } else {
        334 + leap
    }
}

/// The days from the first of January 1970 to a day of the Gregorian calendar.
pub open spec fn days_since_epoch(year: int, month: int, day: int) -> int {
    365 * (year - 1970) + leap_years_to(year - 1) - leap_years_to(1969) + days_before_month(
        year,
        month,
    ) + day - 1
}

pub fn days_from_civil(year: i64, month: i64, day: i64) -> (r: i64)
    requires
        1 <= month <= 12,
        i64::MIN <= days_since_epoch(year as int, month as int, day as int) <= i64::MAX,
    ensures
        r == days_since_epoch(year as int, month as int, day as int),
{
    let adjusted_year: i128 = if month <= 2 {
        year as i128 - 1
    } else {
        year as i128
    };
    let era: i128 = if adjusted_year >= 0 {
        (adjusted_year as u128 / 400) as i128
    } else {
        -(((399 - adjusted_year) as u128 / 400) as i128)
    };
    assert(era == adjusted_year as int / 400);
    let year_of_era: u64 = (adjusted_year - era * 400) as u64;
    let adjusted_month: u64 = if month > 2 {
        (month - 3) as u64
    } else {
        (month + 9) as u64
    };
    let day_of_year: i128 = ((153 * adjusted_month + 2) / 5) as i128 + day as i128;
    let day_of_era: i128 = (year_of_era * 365 + year_of_era / 4 - year_of_era / 100) as i128
        + day_of_year;
    let total: i128 = era * 146_097 + day_of_era - 719_469;
    proof {
        let y = adjusted_year as int;
        assert(y == 400 * era + year_of_era);
        assert(y / 4 == 100 * era + year_of_era as int / 4);
        assert(y / 100 == 4 * era + year_of_era as int / 100);
        assert(y / 400 == era);
        assert(total == 365 * y + leap_years_to(y) + day_of_year - 719_469);
        lemma_month_days(year as int, month as int);
    }
    total as i64
}

/// Counting years from March on puts the leap day at the end of the year.
proof fn lemma_month_days(year: int, month: int)
    requires
        1 <= month <= 12,
    ensures
        ({
            let y = if month <= 2 {
                year - 1
            } else {
                year
            };
            let m = if month > 2 {
                month - 3
            } else {
                month + 9
            };
            365 * y + leap_years_to(y) + (153 * m + 2) / 5 - 719_469 == 365 * (year - 1970)
                + leap_years_to(year - 1) - leap_years_to(1969) + days_before_month(year, month) - 1
        }),
{
    lemma_leap_step(year);
    assert(leap_years_to(1969) == 477);
    if month == 1 {
    } else if month == 2 {
    } else if month == 3 {
    } else if month == 4 {
    } else if month == 5 {
    } else if month == 6 {
    } else if month == 7 {
    } else if month == 8 {
    } else if month == 9 {
    } else if month == 10 {
    } else if month == 11 {
    }
}

proof fn lemma_quotient_4(n: int)
    ensures
        n / 4 == (n - 1) / 4 + if n % 4 == 0 {
            1int
        } else {
            0int
        },
{
}

proof fn lemma_quotient_100(n: int)
    ensures
        n / 100 == (n - 1) / 100 + if n % 100 == 0 {
            1int
        } else {
            0int
        },
        n % 100 == 0 ==> n % 4 == 0,
{
}

proof fn lemma_quotient_400(n: int)
    ensures
        n / 400 == (n - 1) / 400 + if n % 400 == 0 {
            1int
        } else {
            0int
        },
        n % 400 == 0 ==> n % 100 == 0,
{
}

/// A leap year adds one to the count of leap years.
proof fn lemma_leap_step(year: int)
    ensures
        leap_years_to(year) == leap_years_to(year - 1) + if is_leap_year(year) {
            1int
        } else {
            0int
        },
{
    lemma_quotient_4(year);
    lemma_quotient_100(year);
    lemma_quotient_400(year);
}

pub fn dos_datetime_to_unix(date: u16, time: u16) -> (r: Option<i64>)
    ensures
        wide_i64(r) == dos_seconds(date as int, time as int),
{
    let year: i64 = 1980 + (date / 512) as i64;
    let month: i64 = (date / 32 % 16) as i64;
    let day: i64 = (date % 32) as i64;
    let hour: i64 = (time / 2048) as i64;
    let minute: i64 = (time / 32 % 64) as i64;
    let second: i64 = (time % 32) as i64 * 2;
    if !(1 <= month && month <= 12) || !(1 <= day && day <= 31) || hour > 23 || minute > 59 || second
        > 59 {
        return None;
    }
    assert(0 <= days_since_epoch(year as int, month as int, day as int) <= 60_000);
    Some(days_from_civil(year, month, day) * 86_400 + hour * 3_600 + minute * 60 + second)
}

/// The user and group in the extra fields of a zip record from `offset` on.
pub open spec fn zip_ids_from(b: Seq<u8>, offset: int) -> (Option<int>, Option<int>)
    decreases b.len() - offset,
{
    let size = u16_at(b, offset + 2);
    if offset < 0 || offset + 4 > b.len() || offset + 4 + size > b.len() {
        (None, None)
    } else {
        let data = b.subrange(offset + 4, offset + 4 + size);
        let uid_end = 2 + data[1] as int;
        let gid_start = uid_end + 1;
        let gid_end = gid_start + data[uid_end] as int;
        if u16_at(b, offset) == 0x7875 && data.len() >= 3 && data[0] == 1 && uid_end < data.len()
            && gid_end <= data.len() {
            (small_number(data.subrange(2, uid_end)), small_number(data.subrange(gid_start, gid_end)))
        } else {
            zip_ids_from(b, offset + 4 + size)
        }
    }
}

/// One to eight bytes as a number.
pub open spec fn small_number(b: Seq<u8>) -> Option<int> {
    if b.len() == 0 || b.len() > 8 {
        None
    } else {
        Some(little_value(b))
    }
}

pub fn parse_zip_unix_ids(extra: &[u8]) -> (r: (Option<u64>, Option<u64>))
    ensures
        (wide_u64(r.0), wide_u64(r.1)) == zip_ids_from(extra@, 0),
{
    let mut offset: usize = 0;
    while extra.len() >= 4 && offset <= extra.len() - 4
        invariant
            offset <= extra@.len(),
            zip_ids_from(extra@, 0) == zip_ids_from(extra@, offset as int),
        decreases extra.len() - offset,
    {
        let (kind, size) = match (read_u16_le(extra, offset), read_u16_le(extra, offset + 2)) {
            (Some(kind), Some(size)) => (kind, size as usize),
            _ => {
                return (None, None);
            },
        };
        if size > extra.len() - offset - 4 {
            return (None, None);
        }
        let data = &extra[offset + 4..offset + 4 + size];
        assert(data@ == extra@.subrange(offset + 4, offset + 4 + size));
        if kind == 0x7875 && data.len() >= 3 && data[0] == 1 {
            let uid_end: usize = 2 + data[1] as usize;
            if uid_end < data.len() {
                let gid_start: usize = uid_end + 1;
                let gid_size: usize = data[uid_end] as usize;
                if gid_size <= data.len() - gid_start {
                    return (
                        little_endian_integer(&data[2..uid_end]),
                        little_endian_integer(&data[gid_start..gid_start + gid_size]),
                    );
                }
            }
        }
        offset = offset + 4 + size;
    }
    (None, None)
}

/// The mark of a central directory record.
pub open spec fn zip_mark() -> Seq<u8> {
    seq![80u8, 75, 1, 2]
}

/// What stands in a zip archive at or after `from`.
pub open spec fn zip_step(b: Seq<u8>, from: int, count: int) -> Step {
    if !fits(from + 46) {
        Step::Broken
    } else if from + 46 > b.len() {
        Step::Done(false)
    } else {
        match first_from(b, zip_mark(), from) {
            None => Step::Done(false),
            Some(at) => {
                let names = at + 46;
                let extras = names + u16_at(b, at + 28);
                let comments = extras + u16_at(b, at + 30);
                let end = comments + u16_at(b, at + 32);
                if at + 46 > b.len() || !fits(end) {
                    Step::Broken
                } else if end > b.len() {
                    Step::Done(true)
                } else {
                    let ids = zip_ids_from(b.subrange(extras, comments), 0);
                    Step::Member(
                        ArchiveMemberMetadataView {
                            index: count as usize,
                            name: decoded_text(b.subrange(names, extras)),
                            size: u32_at(b, at + 24) as u64,
                            mtime: narrow_i64(dos_seconds(u16_at(b, at + 14), u16_at(b, at + 12))),
                            uid: narrow_u64(ids.0),
                            gid: narrow_u64(ids.1),
                            mode: if b[at + 5] == 3 {
                                Some(u16_at(b, at + 40) as u32)
                            } else {
                                None
                            },
                        },
                        end,
                    )
                }
            },
        }
    }
}

/// What reading a zip archive from `from` on collects.
pub open spec fn zip_from(b: Seq<u8>, from: int, so_far: Collected) -> Option<Collected>
    decreases b.len() - from,
{
    match zip_step(b, from, so_far.count) {
        Step::Broken => None,
        Step::Done(seen) => Some(Collected { seen: so_far.seen || seen, ..so_far }),
        Step::Aside(_, _) => None,
        Step::Member(member, next) => if next <= from || next > b.len() {
            None
        } else {
            zip_from(
                b,
                next,
                Collected {
                    seen: true,
                    count: so_far.count + 1,
                    members: recorded(so_far.members, member),
                },
            )
        },
    }
}

/// The structure of a zip archive.
pub open spec fn zip_summary(b: Seq<u8>) -> Option<ArchiveMetadataSummaryView> {
    summary_of("zip"@, zip_from(b, 0, nothing_collected(false)))
}

pub fn inspect_zip(bytes: &[u8]) -> (r: Option<ArchiveMetadataSummary>)
    ensures
        r.deep_view() == zip_summary(bytes@),
{
    let mark: [u8; 4] = [80u8, 75, 1, 2];
    assert(mark@ =~= zip_mark());
    let mut from: usize = 0;
    let mut count: usize = 0;
    let mut members: Vec<ArchiveMemberMetadata> = Vec::new();
    let mut seen = false;
    assert(members.deep_view() =~= Seq::<ArchiveMemberMetadataView>::empty());
    loop
        invariant
            mark@ == zip_mark(),
            from <= bytes@.len(),
            count <= from,
            zip_summary(bytes@) == summary_of(
                "zip"@,
                zip_from(
                    bytes@,
                    from as int,
                    Collected { seen, count: count as int, members: members.deep_view() },
                ),
            ),
        decreases bytes.len() - from,
    {
        let ghost step = zip_step(bytes@, from as int, count as int);
        if from > usize::MAX - 46 {
            assert(step is Broken);
            return None;
        }
        if from + 46 > bytes.len() {
            assert(step == Step::Done(false));
            return summarize("zip", seen, count, members);
        }
        let at = match find_bytes(bytes, &mark, from) {
            Some(at) => at,
            None => {
                assert(step == Step::Done(false));
                return summarize("zip", seen, count, members);
            },
        };
        if bytes.len() < 46 || at > bytes.len() - 46 {
            assert(step is Broken);
            return None;
        }
        let (dos_time, dos_date, size, name_len, extra_len, comment_len, attributes) = match (
            read_u16_le(bytes, at + 12),
            read_u16_le(bytes, at + 14),
            read_u32_le(bytes, at + 24),
            read_u16_le(bytes, at + 28),
            read_u16_le(bytes, at + 30),
            read_u16_le(bytes, at + 32),
            read_u16_le(bytes, at + 40),
        ) {
            (Some(a), Some(b), Some(c), Some(d), Some(e), Some(f), Some(g)) => (
                a,
                b,
                c,
                d as usize,
                e as usize,
                f as usize,
                g,
            ),
            _ => {
                return None;
            },
        };
        let names: usize = at + 46;
        if name_len + extra_len + comment_len > usize::MAX - names {
            assert(step is Broken);
            return None;
        }
        let extras: usize = names + name_len;
        let comments: usize = extras + extra_len;
        let end: usize = comments + comment_len;
        if end > bytes.len() {
            assert(step == Step::Done(true));
            return summarize("zip", true, count, members);
        }
        let (uid, gid) = parse_zip_unix_ids(&bytes[extras..comments]);
        let member = ArchiveMemberMetadata {
            index: count,
            name: decode(&bytes[names..extras]),
            size: size as u64,
            mtime: dos_datetime_to_unix(dos_date, dos_time),
            uid,
            gid,
            mode: if bytes[at + 5] == 3 {
                Some(attributes as u32)
            } else {
                None
            },
        };
        assert(step == Step::Member(member.deep_view(), end as int));
        record(&mut members, member);
        seen = true;
        count += 1;
        from = end;
    }
}

/// The structure of a gzip file: the time in its header.
pub open spec fn gzip_summary(b: Seq<u8>) -> Option<ArchiveMetadataSummaryView> {
    if b.len() < 10 || b[0] != 0x1f || b[1] != 0x8b {
        None
    } else {
        Some(
            ArchiveMetadataSummaryView {
                format: "gzip"@,
                member_count: 1,
                members: Seq::empty(),
                truncated: false,
                container_mtime: Some(u32_at(b, 4) as i64),
            },
        )
    }
}

pub fn inspect_gzip(bytes: &[u8]) -> (r: Option<ArchiveMetadataSummary>)
    ensures
        r.deep_view() == gzip_summary(bytes@),
{
    if bytes.len() < 10 || bytes[0] != 0x1f || bytes[1] != 0x8b {
        return None;
    }
    match read_u32_le(bytes, 4) {
        Some(raw) => {
            let members: Vec<ArchiveMemberMetadata> = Vec::new();
            assert(members.deep_view() =~= Seq::<ArchiveMemberMetadataView>::empty());
            Some(
                ArchiveMetadataSummary {
                    format: "gzip".to_owned(),
                    member_count: 1,
                    members,
                    truncated: false,
                    container_mtime: Some(raw as i64),
                },
            )
        },
        None => None,
    }
}

/// The structure of an artifact of a given type, if it is an archive of moderate size.
pub open spec fn archive_summary(b: Seq<u8>, kind: ArtifactType) -> Option<
    ArchiveMetadataSummaryView,
> {
    if b.len() > MAX_ARCHIVE_ANALYSIS_BYTES {
        None
    } else {
        match kind {
            ArtifactType::Ar | ArtifactType::Deb => ar_summary(b),
            ArtifactType::Tar | ArtifactType::OciImage => tar_summary(b),
            ArtifactType::Zip | ArtifactType::Jar | ArtifactType::PythonWheel => zip_summary(b),
            ArtifactType::Gzip => gzip_summary(b),
            _ => None,
        }
    }
}

pub fn inspect(bytes: &[u8], detected_type: ArtifactType) -> (r: Option<ArchiveMetadataSummary>)
    ensures
        r.deep_view() == archive_summary(bytes@, detected_type),
{
    if bytes.len() as u64 > MAX_ARCHIVE_ANALYSIS_BYTES {
        return None;
    }
    match detected_type {
        ArtifactType::Ar | ArtifactType::Deb => inspect_ar(bytes),
        ArtifactType::Tar | ArtifactType::OciImage => inspect_tar(bytes),
        ArtifactType::Zip | ArtifactType::Jar | ArtifactType::PythonWheel => inspect_zip(bytes),
        ArtifactType::Gzip => inspect_gzip(bytes),
        _ => None,
    }
}

} // verus!
