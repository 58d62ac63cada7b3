//! What the differences between two archives say.
use vstd::prelude::*;

use crate::artifact::archive::{
    difference_if, found_differences, member_differences, member_named, names_are_unique,
    names_of, namesake_differences, value_difference, whole_differences,
};
use crate::model::{
    ArchiveMemberMetadataView, ArchiveMetadataDifference, ArchiveMetadataDifferenceView,
    ArchiveMetadataField, ArchiveMetadataSummaryView,
};
use crate::numbers::decimal_of;
use crate::sorting::{
    law_sorted_set_adds_nothing, lemma_text_piece_splits, option_piece, sorted_set, text_piece,
    Keyed,
};
use crate::text::joined;

verus! {

/// What a member says in a field, if it says anything.
pub open spec fn value_in(m: ArchiveMemberMetadataView, field: ArchiveMetadataField) -> Option<int> {
    match field {
        ArchiveMetadataField::Mtime => match m.mtime {
            Some(n) => Some(n as int),
            None => None,
        },
        ArchiveMetadataField::Uid => match m.uid {
            Some(n) => Some(n as int),
            None => None,
        },
        ArchiveMetadataField::Gid => match m.gid {
            Some(n) => Some(n as int),
            None => None,
        },
        ArchiveMetadataField::Mode => match m.mode {
            Some(n) => Some(n as int),
            None => None,
        },
        ArchiveMetadataField::Size => Some(m.size as int),
        _ => None,
    }
}

/// A value as it is reported.
pub open spec fn reported(value: Option<int>) -> Option<Seq<char>> {
    match value {
        Some(n) => Some(decimal_of(n)),
        None => None,
    }
}

pub open spec fn is_member_field(field: ArchiveMetadataField) -> bool {
    field == ArchiveMetadataField::Mtime || field == ArchiveMetadataField::Uid || field
        == ArchiveMetadataField::Gid || field == ArchiveMetadataField::Mode || field
        == ArchiveMetadataField::Size
}

/// Whether a difference is one between two members: in a field in which they differ, under the name of
/// the first, with both values.
pub open spec fn tells_members_apart(
    a: ArchiveMemberMetadataView,
    b: ArchiveMemberMetadataView,
    d: ArchiveMetadataDifferenceView,
) -> bool {
    &&& is_member_field(d.field)
    &&& value_in(a, d.field) != value_in(b, d.field)
    &&& d.member == Some(a.name)
    &&& d.baseline == reported(value_in(a, d.field))
    &&& d.variant == reported(value_in(b, d.field))
}

/// Whether a difference is one between the archives as wholes: in the number of members, in the time of
/// the container or in the names in their order.
pub open spec fn tells_archives_apart(
    a: ArchiveMetadataSummaryView,
    b: ArchiveMetadataSummaryView,
    d: ArchiveMetadataDifferenceView,
) -> bool {
    &&& d.member is None
    &&& {
        ||| d.field == ArchiveMetadataField::MemberCount && a.member_count != b.member_count
            && d.baseline == Some(decimal_of(a.member_count as int)) && d.variant == Some(
            decimal_of(b.member_count as int),
        )
        ||| d.field == ArchiveMetadataField::ContainerMtime && a.container_mtime
            != b.container_mtime && d.baseline == reported(
            match a.container_mtime {
                Some(n) => Some(n as int),
                None => None,
            },
        ) && d.variant == reported(
            match b.container_mtime {
                Some(n) => Some(n as int),
                None => None,
            },
        )
        ||| d.field == ArchiveMetadataField::MemberOrder && names_of(a.members) != names_of(
            b.members,
        ) && d.baseline == Some(
            joined(names_of(a.members), ", "@, a.members.len() as int),
        ) && d.variant == Some(joined(names_of(b.members), ", "@, b.members.len() as int))
    }
}

proof fn lemma_in_sum<A>(a: Seq<A>, b: Seq<A>, x: A)
    ensures
        (a + b).contains(x) <==> a.contains(x) || b.contains(x),
{
    if a.contains(x) {
        let i = a.index_of(x);
        assert((a + b)[i] == x);
    }
    if b.contains(x) {
        let i = b.index_of(x);
        assert((a + b)[a.len() + i] == x);
    }
    if (a + b).contains(x) {
        let i = (a + b).index_of(x);
        if i < a.len() {
            assert(a[i] == x);
        } else {
            assert(b[i - a.len()] == x);
        }
    }
}

proof fn lemma_one(differs: bool, own: ArchiveMetadataDifferenceView, d: ArchiveMetadataDifferenceView)
    ensures
        difference_if(differs, own).contains(d) <==> differs && d == own,
{
    if differs {
        assert(difference_if(differs, own)[0] == own);
    }
}

/// The differences between two members are exactly the fields in which they differ.
pub proof fn law_members_differ_where_their_values_differ(
    a: ArchiveMemberMetadataView,
    b: ArchiveMemberMetadataView,
    d: ArchiveMetadataDifferenceView,
)
    ensures
        member_differences(a, b).contains(d) <==> tells_members_apart(a, b, d),
{
    let mtime = value_difference(
        ArchiveMetadataField::Mtime,
        a.name,
        value_in(a, ArchiveMetadataField::Mtime),
        value_in(b, ArchiveMetadataField::Mtime),
    );
    let uid = value_difference(
        ArchiveMetadataField::Uid,
        a.name,
        value_in(a, ArchiveMetadataField::Uid),
        value_in(b, ArchiveMetadataField::Uid),
    );
    let gid = value_difference(
        ArchiveMetadataField::Gid,
        a.name,
        value_in(a, ArchiveMetadataField::Gid),
        value_in(b, ArchiveMetadataField::Gid),
    );
    let mode = value_difference(
        ArchiveMetadataField::Mode,
        a.name,
        value_in(a, ArchiveMetadataField::Mode),
        value_in(b, ArchiveMetadataField::Mode),
    );
    let size = value_difference(
        ArchiveMetadataField::Size,
        a.name,
        value_in(a, ArchiveMetadataField::Size),
        value_in(b, ArchiveMetadataField::Size),
    );
    assert(member_differences(a, b) =~= mtime + uid + gid + mode + size);
    lemma_in_sum(mtime, uid, d);
    lemma_in_sum(mtime + uid, gid, d);
    lemma_in_sum(mtime + uid + gid, mode, d);
    lemma_in_sum(mtime + uid + gid + mode, size, d);
    lemma_value(ArchiveMetadataField::Mtime, a, b, d);
    lemma_value(ArchiveMetadataField::Uid, a, b, d);
    lemma_value(ArchiveMetadataField::Gid, a, b, d);
    lemma_value(ArchiveMetadataField::Mode, a, b, d);
    lemma_value(ArchiveMetadataField::Size, a, b, d);
}

proof fn lemma_value(
    field: ArchiveMetadataField,
    a: ArchiveMemberMetadataView,
    b: ArchiveMemberMetadataView,
    d: ArchiveMetadataDifferenceView,
)
    ensures
        value_difference(field, a.name, value_in(a, field), value_in(b, field)).contains(d) <==> (
        value_in(a, field) != value_in(b, field) && d == ArchiveMetadataDifferenceView {
            field,
            member: Some(a.name),
            baseline: reported(value_in(a, field)),
            variant: reported(value_in(b, field)),
        }),
{
    lemma_one(
        value_in(a, field) != value_in(b, field),
        ArchiveMetadataDifferenceView {
            field,
            member: Some(a.name),
            baseline: reported(value_in(a, field)),
            variant: reported(value_in(b, field)),
        },
        d,
    );
}

/// Whether a difference is one between two members of the same name.
pub open spec fn tells_namesakes_apart(
    a: Seq<ArchiveMemberMetadataView>,
    b: Seq<ArchiveMemberMetadataView>,
    n: int,
    d: ArchiveMetadataDifferenceView,
) -> bool {
    exists|i: int, j: int|
        0 <= i < n && 0 <= j < b.len() && (#[trigger] a[i]).name == (#[trigger] b[j]).name
            && tells_members_apart(a[i], b[j], d)
}

proof fn lemma_named(members: Seq<ArchiveMemberMetadataView>, name: Seq<char>, from: int)
    requires
        0 <= from <= members.len(),
    ensures
        match member_named(members, name, from) {
            Some(j) => from <= j < members.len() && members[j].name == name,
            None => forall|k: int| from <= k < members.len() ==> (#[trigger] members[k]).name != name,
        },
    decreases members.len() - from,
{
    if from < members.len() && members[from].name != name {
        lemma_named(members, name, from + 1);
    }
}

proof fn lemma_namesakes(
    a: Seq<ArchiveMemberMetadataView>,
    b: Seq<ArchiveMemberMetadataView>,
    n: int,
    d: ArchiveMetadataDifferenceView,
)
    requires
        0 <= n <= a.len(),
        names_are_unique(b),
    ensures
        namesake_differences(a, b, n).contains(d) <==> tells_namesakes_apart(a, b, n, d),
    decreases n,
{
    if n > 0 {
        lemma_namesakes(a, b, n - 1, d);
        let own = match member_named(b, a[n - 1].name, 0) {
            Some(j) => member_differences(a[n - 1], b[j]),
            None => Seq::empty(),
        };
        lemma_in_sum(namesake_differences(a, b, n - 1), own, d);
        lemma_named(b, a[n - 1].name, 0);
        if let Some(j) = member_named(b, a[n - 1].name, 0) {
            law_members_differ_where_their_values_differ(a[n - 1], b[j], d);
            if own.contains(d) {
                assert(a[n - 1].name == b[j].name);
            }
        }
        if tells_namesakes_apart(a, b, n - 1, d) {
            let (i, j) = choose|i: int, j: int|
                0 <= i < n - 1 && 0 <= j < b.len() && (#[trigger] a[i]).name == (
                #[trigger] b[j]).name && tells_members_apart(a[i], b[j], d);
            assert(a[i].name == b[j].name);
        }
        if tells_namesakes_apart(a, b, n, d) {
            let (i, j) = choose|i: int, j: int|
                0 <= i < n && 0 <= j < b.len() && (#[trigger] a[i]).name == (#[trigger] b[j]).name
                    && tells_members_apart(a[i], b[j], d);
            if i == n - 1 {
                let k = member_named(b, a[n - 1].name, 0)->0;
                assert(b[j].name == b[k].name);
                if j < k {
                    assert(b[j].name != b[k].name);
                }
                if k < j {
                    assert(b[k].name != b[j].name);
                }
                assert(k == j);
            } else {
                assert(a[i].name == b[j].name);
            }
        }
    }
}

proof fn lemma_whole(
    a: ArchiveMetadataSummaryView,
    b: ArchiveMetadataSummaryView,
    d: ArchiveMetadataDifferenceView,
)
    ensures
        whole_differences(a, b).contains(d) <==> tells_archives_apart(a, b, d),
{
    let left = names_of(a.members);
    let right = names_of(b.members);
    let count = ArchiveMetadataDifferenceView {
        field: ArchiveMetadataField::MemberCount,
        member: None,
        baseline: Some(decimal_of(a.member_count as int)),
        variant: Some(decimal_of(b.member_count as int)),
    };
    let time = ArchiveMetadataDifferenceView {
        field: ArchiveMetadataField::ContainerMtime,
        member: None,
        baseline: reported(
            match a.container_mtime {
                Some(n) => Some(n as int),
                None => None,
            },
        ),
        variant: reported(
            match b.container_mtime {
                Some(n) => Some(n as int),
                None => None,
            },
        ),
    };
    let order = ArchiveMetadataDifferenceView {
        field: ArchiveMetadataField::MemberOrder,
        member: None,
        baseline: Some(joined(left, ", "@, left.len() as int)),
        variant: Some(joined(right, ", "@, right.len() as int)),
    };
    let x = difference_if(a.member_count != b.member_count, count);
    let y = difference_if(a.container_mtime != b.container_mtime, time);
    let z = difference_if(left != right, order);
    assert(whole_differences(a, b) =~= x + y + z);
    lemma_in_sum(x, y, d);
    lemma_in_sum(x + y, z, d);
    lemma_one(a.member_count != b.member_count, count, d);
    lemma_one(a.container_mtime != b.container_mtime, time, d);
    lemma_one(left != right, order, d);
}

/// The differences between two archives whose members have unique names are exactly those of the
/// archives as wholes and those of members of the same name, wherever these stand.
pub proof fn law_archives_differ_where_their_members_differ(
    a: ArchiveMetadataSummaryView,
    b: ArchiveMetadataSummaryView,
    d: ArchiveMetadataDifferenceView,
)
    requires
        forall|i: int, j: int|
            0 <= i < j < a.members.len() ==> (#[trigger] a.members[i]).name != (
            #[trigger] a.members[j]).name,
        forall|i: int, j: int|
            0 <= i < j < b.members.len() ==> (#[trigger] b.members[i]).name != (
            #[trigger] b.members[j]).name,
    ensures
        sorted_set::<ArchiveMetadataDifference>(found_differences(a, b)).contains(d)
            <==> tells_archives_apart(a, b, d) || tells_namesakes_apart(
            a.members,
            b.members,
            a.members.len() as int,
            d,
        ),
{
    let all = found_differences(a, b);
    let found = sorted_set::<ArchiveMetadataDifference>(all);
    lemma_whole(a, b, d);
    lemma_namesakes(a.members, b.members, a.members.len() as int, d);
    lemma_in_sum(
        whole_differences(a, b),
        namesake_differences(a.members, b.members, a.members.len() as int),
        d,
    );
    law_sorted_set_adds_nothing::<ArchiveMetadataDifference>(all, d);
    if all.contains(d) {
        let k = choose|k: int|
            0 <= k < found.len() && ArchiveMetadataDifference::sort_key(#[trigger] found[k])
                == ArchiveMetadataDifference::sort_key(d);
        lemma_keys(found[k], d);
        assert(found.contains(d));
    }
}

proof fn lemma_option_piece(a: Option<Seq<char>>, b: Option<Seq<char>>, x: Seq<int>, y: Seq<int>)
    requires
        option_piece(a) + x == option_piece(b) + y,
    ensures
        a == b,
        x == y,
{
    let left = option_piece(a) + x;
    let right = option_piece(b) + y;
    assert(left[0] == option_piece(a)[0]);
    assert(right[0] == option_piece(b)[0]);
    match (a, b) {
        (Some(s), Some(t)) => {
            assert(left.skip(1) =~= text_piece(s) + x);
            assert(right.skip(1) =~= text_piece(t) + y);
            lemma_text_piece_splits(s, t, x, y);
        },
        _ => {
            assert(left.skip(1) =~= x);
            assert(right.skip(1) =~= y);
        },
    }
}

proof fn lemma_regrouped(n: int, p: Seq<int>, q: Seq<int>, r: Seq<int>)
    ensures
        (seq![n] + p + q + r)[0] == n,
        (seq![n] + p + q + r).skip(1) == p + (q + (r + Seq::<int>::empty())),
{
    assert((seq![n] + p + q + r).skip(1) =~= p + (q + (r + Seq::<int>::empty())));
}

proof fn lemma_keys(a: ArchiveMetadataDifferenceView, b: ArchiveMetadataDifferenceView)
    requires
        ArchiveMetadataDifference::sort_key(a) == ArchiveMetadataDifference::sort_key(b),
    ensures
        a == b,
{
    let none = Seq::<int>::empty();
    let left = ArchiveMetadataDifference::sort_key(a);
    let right = ArchiveMetadataDifference::sort_key(b);
    let x = option_piece(a.baseline) + (option_piece(a.variant) + none);
    let y = option_piece(b.baseline) + (option_piece(b.variant) + none);
    lemma_regrouped(
        crate::artifact::archive::field_rank(a.field),
        option_piece(a.member),
        option_piece(a.baseline),
        option_piece(a.variant),
    );
    lemma_regrouped(
        crate::artifact::archive::field_rank(b.field),
        option_piece(b.member),
        option_piece(b.baseline),
        option_piece(b.variant),
    );
    lemma_option_piece(a.member, b.member, x, y);
    lemma_option_piece(
        a.baseline,
        b.baseline,
        option_piece(a.variant) + none,
        option_piece(b.variant) + none,
    );
    lemma_option_piece(a.variant, b.variant, none, none);
}

} // verus!
