//! What reading an archive gives back of what was written into it.
use vstd::prelude::*;
use vstd::utf8::{decode_utf8, encode_utf8, valid_utf8};

use crate::artifact::archive::{
    ar_from, ar_step, ar_summary, archive_summary, days_since_epoch, decimal_field, dos_seconds,
    field_text, gzip_summary, is_zero_block, nothing_collected, nul_text, octal_field,
    padded_size, recorded, signed_field, tar_from, tar_header_name, tar_number, tar_step,
    tar_summary, zip_from, zip_ids_from, zip_mark, zip_step, zip_summary, ArStep, Collected,
    Step,
};
use crate::bytes::{big_value, end_before, little_value, u16_at, u32_at};
use crate::model::{ArchiveMemberMetadataView, ArtifactType};
use crate::numbers::{digits_of, law_written_numbers_read_back};
use crate::text::{
    begins_with, decoded_text, first_from, in_class, lemma_first_from, stands_at, trimmed_end,
    trimmed_start, CharClass,
};

verus! {

/// How many days a month has.
pub open spec fn month_length(year: int, month: int) -> int {
    if month == 2 {
        if year % 400 == 0 || (year % 4 == 0 && year % 100 != 0) {
            29
        } else {
            28
        }
    } else if month == 4 || month == 6 || month == 9 || month == 11 {
        30
    } else {
        31
    }
}

/// Days are counted from the first of January 1970, one by one, through months and years of their
/// proper lengths.
pub proof fn law_days_are_counted_one_by_one(year: int, month: int, day: int)
    requires
        1 <= month <= 12,
    ensures
        days_since_epoch(1970, 1, 1) == 0,
        days_since_epoch(year, month, day + 1) == days_since_epoch(year, month, day) + 1,
        month < 12 ==> days_since_epoch(year, month + 1, 1) == days_since_epoch(year, month, 1)
            + month_length(year, month),
        days_since_epoch(year + 1, 1, 1) == days_since_epoch(year, 12, 1) + 31,
{
    lemma_leap(year);
}

proof fn lemma_leap(year: int)
    ensures
        crate::artifact::archive::leap_years_to(year) == crate::artifact::archive::leap_years_to(
            year - 1,
        ) + if year % 400 == 0 || (year % 4 == 0 && year % 100 != 0) {
            1int
        } else {
            0int
        },
{
    lemma_by_4(year);
    lemma_by_100(year);
    lemma_by_400(year);
}

proof fn lemma_by_4(n: int)
    ensures
        n / 4 == (n - 1) / 4 + if n % 4 == 0 {
            1int
        } else {
            0int
        },
{
}

proof fn lemma_by_100(n: int)
    ensures
        n / 100 == (n - 1) / 100 + if n % 100 == 0 {
            1int
        } else {
            0int
        },
        n % 100 == 0 ==> n % 4 == 0,
{
}

proof fn lemma_by_400(n: int)
    ensures
        n / 400 == (n - 1) / 400 + if n % 400 == 0 {
            1int
        } else {
            0int
        },
        n % 400 == 0 ==> n % 100 == 0,
{
}

/// A DOS date and time.
pub struct Instant {
    pub year: int,
    pub month: int,
    pub day: int,
    pub hour: int,
    pub minute: int,
    pub second: int,
}

/// Whether a DOS date and time can hold an instant: from 1980 to 2107, at an even second.
pub open spec fn is_dos_instant(t: Instant) -> bool {
    &&& 1980 <= t.year <= 2107
    &&& 1 <= t.month <= 12
    &&& 1 <= t.day <= 31
    &&& 0 <= t.hour <= 23
    &&& 0 <= t.minute <= 59
    &&& 0 <= t.second <= 58
    &&& t.second % 2 == 0
}

/// The DOS date of an instant: seven bits of the year, four of the month, five of the day.
pub open spec fn dos_date(t: Instant) -> int {
    (t.year - 1980) * 512 + t.month * 32 + t.day
}

/// The DOS time of an instant: five bits of the hour, six of the minute, five of half the second.
pub open spec fn dos_time(t: Instant) -> int {
    t.hour * 2048 + t.minute * 32 + t.second / 2
}

/// The seconds from 1970 to an instant.
pub open spec fn seconds_to(t: Instant) -> int {
    days_since_epoch(t.year, t.month, t.day) * 86_400 + t.hour * 3_600 + t.minute * 60 + t.second
}

/// An instant that was written as a DOS date and time reads back as its seconds.
pub proof fn law_dos_times_read_back(t: Instant)
    requires
        is_dos_instant(t),
    ensures
        dos_seconds(dos_date(t), dos_time(t)) == Some(seconds_to(t)),
        0 <= dos_date(t) < 65536,
        0 <= dos_time(t) < 65536,
        seconds_to(t) >= 0,
        seconds_to(t) <= i64::MAX,
{
    let date = dos_date(t);
    let time = dos_time(t);
    let y = t.year - 1980;
    assert(date / 512 == y);
    assert(date / 32 == y * 16 + t.month);
    assert(date / 32 % 16 == t.month);
    assert(date % 32 == t.day);
    assert(time / 2048 == t.hour);
    assert(time / 32 == t.hour * 64 + t.minute);
    assert(time / 32 % 64 == t.minute);
    assert(time % 32 == t.second / 2);
    assert(0 <= days_since_epoch(t.year, t.month, t.day) <= 60_000);
}

/// A date or a time with a field out of its range is no instant.
pub proof fn law_impossible_dos_times_are_refused(date: int, time: int)
    requires
        0 <= date < 65536,
        0 <= time < 65536,
    ensures
        dos_seconds(date, time) is None <==> date / 32 % 16 == 0 || date / 32 % 16 > 12 || date % 32
            == 0 || time / 2048 > 23 || time / 32 % 64 > 59 || time % 32 > 29,
{
}

pub open spec fn le16(n: int) -> Seq<u8> {
    seq![(n % 256) as u8, (n / 256) as u8]
}

pub open spec fn le32(n: int) -> Seq<u8> {
    seq![
        (n % 256) as u8,
        (n / 256 % 256) as u8,
        (n / 65536 % 256) as u8,
        (n / 16777216) as u8,
    ]
}

/// A number that was written in two or four bytes, least significant first, reads back.
pub proof fn law_little_endian_numbers_read_back(b: Seq<u8>, at: int, n: int)
    ensures
        0 <= n < 65536 && b[at] == le16(n)[0] && b[at + 1] == le16(n)[1] ==> u16_at(b, at) == n,
        0 <= n < 4294967296 && b[at] == le32(n)[0] && b[at + 1] == le32(n)[1] && b[at + 2] == le32(
            n,
        )[2] && b[at + 3] == le32(n)[3] ==> u32_at(b, at) == n,
{
    if 0 <= n < 4294967296 {
        assert(n % 256 + 256 * (n / 256 % 256) + 65536 * (n / 65536 % 256) + 16777216 * (n
            / 16777216) == n) by {
            assert(n == 256 * (n / 256) + n % 256);
            assert(n / 256 == 256 * (n / 65536) + n / 256 % 256) by {
                assert(n / 256 / 256 == n / 65536);
            }
            assert(n / 65536 == 256 * (n / 16777216) + n / 65536 % 256) by {
                assert(n / 65536 / 256 == n / 16777216);
            }
        }
    }
}

/// A member of a zip archive as it is written in the central directory. The gaps are bytes that say
/// nothing of the member.
pub struct ZipEntry {
    pub version: u8,
    pub host: u8,
    pub gap6: Seq<u8>,
    pub time: int,
    pub date: int,
    pub gap16: Seq<u8>,
    pub size: int,
    pub name: Seq<u8>,
    pub extra: Seq<u8>,
    pub comment: Seq<u8>,
    pub gap34: Seq<u8>,
    pub attributes: int,
    pub gap42: Seq<u8>,
}

pub open spec fn is_zip_entry(e: ZipEntry) -> bool {
    &&& e.gap6.len() == 6
    &&& e.gap16.len() == 8
    &&& e.gap34.len() == 6
    &&& e.gap42.len() == 4
    &&& 0 <= e.time < 65536
    &&& 0 <= e.date < 65536
    &&& 0 <= e.size < 4294967296
    &&& e.name.len() < 65536
    &&& e.extra.len() < 65536
    &&& e.comment.len() < 65536
    &&& 0 <= e.attributes < 65536
}

/// The fixed part of a central directory record.
pub open spec fn zip_head(e: ZipEntry) -> Seq<u8> {
    seq![80u8, 75, 1, 2, e.version, e.host] + e.gap6 + le16(e.time) + le16(e.date) + e.gap16 + le32(
        e.size,
    ) + le16(e.name.len() as int) + le16(e.extra.len() as int) + le16(e.comment.len() as int)
        + e.gap34 + le16(e.attributes) + e.gap42
}

pub open spec fn zip_record(e: ZipEntry) -> Seq<u8> {
    zip_head(e) + e.name + e.extra + e.comment
}

/// What is to be read of a zip entry.
pub open spec fn zip_member(e: ZipEntry, index: int) -> ArchiveMemberMetadataView {
    ArchiveMemberMetadataView {
        index: index as usize,
        name: decoded_text(e.name),
        size: e.size as u64,
        mtime: match dos_seconds(e.date, e.time) {
            Some(n) => Some(n as i64),
            None => None,
        },
        uid: match zip_ids_from(e.extra, 0).0 {
            Some(n) => Some(n as u64),
            None => None,
        },
        gid: match zip_ids_from(e.extra, 0).1 {
            Some(n) => Some(n as u64),
            None => None,
        },
        mode: if e.host == 3 {
            Some(e.attributes as u32)
        } else {
            None
        },
    }
}

proof fn lemma_zip_head(e: ZipEntry)
    requires
        is_zip_entry(e),
    ensures
        ({
            let h = zip_head(e);
            &&& h.len() == 46
            &&& h[0] == 80 && h[1] == 75 && h[2] == 1 && h[3] == 2
            &&& h[5] == e.host
            &&& h[12] == le16(e.time)[0] && h[13] == le16(e.time)[1]
            &&& h[14] == le16(e.date)[0] && h[15] == le16(e.date)[1]
            &&& h[24] == le32(e.size)[0] && h[25] == le32(e.size)[1] && h[26] == le32(e.size)[2]
                && h[27] == le32(e.size)[3]
            &&& h[28] == le16(e.name.len() as int)[0] && h[29] == le16(e.name.len() as int)[1]
            &&& h[30] == le16(e.extra.len() as int)[0] && h[31] == le16(e.extra.len() as int)[1]
            &&& h[32] == le16(e.comment.len() as int)[0] && h[33] == le16(e.comment.len() as int)[1]
            &&& h[40] == le16(e.attributes)[0] && h[41] == le16(e.attributes)[1]
        }),
{
}

/// A record of a central directory is read as what was written: the name, the size, the instant, the
/// owners and the mode, each from its own place; and the reading goes on behind it.
pub proof fn law_a_zip_record_reads_back(b: Seq<u8>, at: int, e: ZipEntry, count: int)
    requires
        is_zip_entry(e),
        0 <= at,
        at + zip_record(e).len() <= b.len(),
        b.len() <= usize::MAX,
        b.subrange(at, at + zip_record(e).len()) == zip_record(e),
    ensures
        zip_step(b, at, count) == Step::Member(
            zip_member(e, count),
            at + zip_record(e).len(),
        ),
{
    let r = zip_record(e);
    lemma_zip_head(e);
    assert(r.len() == 46 + e.name.len() + e.extra.len() + e.comment.len());
    assert forall|i: int| 0 <= i < 46 implies b[at + i] == #[trigger] zip_head(e)[i] by {
        assert(r[i] == zip_head(e)[i]);
        assert(b.subrange(at, at + r.len())[i] == b[at + i]);
    }
    assert(b[at] == zip_head(e)[0] && b[at + 1] == zip_head(e)[1] && b[at + 2] == zip_head(e)[2]
        && b[at + 3] == zip_head(e)[3]);
    assert(b.subrange(at, at + 4) =~= zip_mark());
    lemma_first_from(b, zip_mark(), at);
    assert(stands_at(b, zip_mark(), at));
    assert(first_from(b, zip_mark(), at) == Some(at));
    assert(b[at + 5] == zip_head(e)[5]);
    assert(b[at + 12] == zip_head(e)[12] && b[at + 13] == zip_head(e)[13]);
    assert(b[at + 14] == zip_head(e)[14] && b[at + 15] == zip_head(e)[15]);
    assert(b[at + 24] == zip_head(e)[24] && b[at + 25] == zip_head(e)[25] && b[at + 26] == zip_head(
        e,
    )[26] && b[at + 27] == zip_head(e)[27]);
    assert(b[at + 28] == zip_head(e)[28] && b[at + 29] == zip_head(e)[29]);
    assert(b[at + 30] == zip_head(e)[30] && b[at + 31] == zip_head(e)[31]);
    assert(b[at + 32] == zip_head(e)[32] && b[at + 33] == zip_head(e)[33]);
    assert(b[at + 40] == zip_head(e)[40] && b[at + 41] == zip_head(e)[41]);
    law_little_endian_numbers_read_back(b, at + 12, e.time);
    law_little_endian_numbers_read_back(b, at + 14, e.date);
    law_little_endian_numbers_read_back(b, at + 24, e.size);
    law_little_endian_numbers_read_back(b, at + 28, e.name.len() as int);
    law_little_endian_numbers_read_back(b, at + 30, e.extra.len() as int);
    law_little_endian_numbers_read_back(b, at + 32, e.comment.len() as int);
    law_little_endian_numbers_read_back(b, at + 40, e.attributes);
    let names = at + 46;
    let extras = names + e.name.len();
    let comments = extras + e.extra.len();
    assert(b.subrange(names, extras) =~= e.name) by {
        assert forall|i: int| 0 <= i < e.name.len() implies b[names + i] == e.name[i] by {
            assert(b.subrange(at, at + r.len())[46 + i] == r[46 + i]);
        }
    }
    assert(b.subrange(extras, comments) =~= e.extra) by {
        assert forall|i: int| 0 <= i < e.extra.len() implies b[extras + i] == e.extra[i] by {
            assert(b.subrange(at, at + r.len())[46 + e.name.len() + i] == r[46 + e.name.len() + i]);
        }
    }
    lemma_dos_bounds(e.date, e.time);
    let ids = zip_ids_from(e.extra, 0);
}

proof fn lemma_dos_bounds(date: int, time: int)
    requires
        0 <= date < 65536,
        0 <= time < 65536,
    ensures
        dos_seconds(date, time) matches Some(n) ==> n <= i64::MAX,
{
    let year = 1980 + date / 512;
    let month = date / 32 % 16;
    let day = date % 32;
    if 1 <= month <= 12 {
        assert(0 <= days_since_epoch(year, month, day) <= 60_000);
    }
}

/// The records of entries one behind the other.
pub open spec fn zip_directory(entries: Seq<ZipEntry>, from: int) -> Seq<u8>
    decreases entries.len() - from,
{
    if from >= entries.len() {
        Seq::empty()
    } else {
        zip_record(entries[from]) + zip_directory(entries, from + 1)
    }
}

/// The members of entries, as far as they are recorded.
pub open spec fn zip_members(entries: Seq<ZipEntry>, n: int) -> Seq<ArchiveMemberMetadataView>
    decreases n,
{
    if n <= 0 {
        Seq::empty()
    } else {
        zip_members(entries, n - 1).push(zip_member(entries[n - 1], n - 1))
    }
}

proof fn lemma_directory(b: Seq<u8>, at: int, entries: Seq<ZipEntry>, n: int, so_far: Collected)
    requires
        0 <= n <= entries.len() <= 512,
        forall|i: int| 0 <= i < entries.len() ==> is_zip_entry(#[trigger] entries[i]),
        b.len() <= usize::MAX - 46,
        0 <= at <= b.len(),
        b.skip(at) == zip_directory(entries, n),
        so_far.count == n,
        so_far.members == zip_members(entries, n),
        so_far.members.len() == n,
    ensures
        zip_from(b, at, so_far) == Some(
            Collected {
                seen: so_far.seen || n < entries.len(),
                count: entries.len() as int,
                members: zip_members(entries, entries.len() as int),
            },
        ),
    decreases entries.len() - n,
{
    assert(b.skip(at).len() == b.len() - at);
    if n < entries.len() {
        let e = entries[n];
        let r = zip_record(e);
        let rest = zip_directory(entries, n + 1);
        lemma_zip_head(e);
        assert(b.skip(at) == r + rest);
        assert(b.subrange(at, at + r.len()) =~= r) by {
            assert forall|i: int| 0 <= i < r.len() implies b[at + i] == r[i] by {
                assert(b.skip(at)[i] == (r + rest)[i]);
            }
        }
        law_a_zip_record_reads_back(b, at, e, n);
        assert(b.skip(at + r.len()) =~= rest) by {
            assert forall|i: int| 0 <= i < rest.len() implies b[at + r.len() + i] == rest[i] by {
                assert(b.skip(at)[r.len() + i] == (r + rest)[r.len() + i]);
            }
        }
        let next = Collected {
            seen: true,
            count: so_far.count + 1,
            members: recorded(so_far.members, zip_member(e, n)),
        };
        assert(next.members =~= zip_members(entries, n + 1));
        lemma_directory(b, at + r.len(), entries, n + 1, next);
    } else {
        assert(at == b.len());
        assert(zip_members(entries, n) == so_far.members);
    }
}

/// A central directory reads back: as many members as were written, each with what was written of it.
pub proof fn law_zip_directories_read_back(entries: Seq<ZipEntry>)
    requires
        1 <= entries.len() <= 512,
        forall|i: int| 0 <= i < entries.len() ==> is_zip_entry(#[trigger] entries[i]),
        zip_directory(entries, 0).len() <= usize::MAX - 46,
    ensures
        zip_summary(zip_directory(entries, 0)) is Some,
        ({
            let summary = zip_summary(zip_directory(entries, 0))->0;
            &&& summary.format == "zip"@
            &&& summary.member_count == entries.len()
            &&& !summary.truncated
            &&& summary.members.len() == entries.len()
            &&& forall|i: int|
                0 <= i < entries.len() ==> #[trigger] summary.members[i] == zip_member(
                    entries[i],
                    i,
                )
        }),
{
    let b = zip_directory(entries, 0);
    assert(b.skip(0) =~= b);
    lemma_directory(b, 0, entries, 0, nothing_collected(false));
    lemma_zip_members(entries, entries.len() as int);
}

proof fn lemma_zip_members(entries: Seq<ZipEntry>, n: int)
    requires
        0 <= n <= entries.len(),
    ensures
        zip_members(entries, n).len() == n,
        forall|i: int|
            0 <= i < n ==> #[trigger] zip_members(entries, n)[i] == zip_member(entries[i], i),
    decreases n,
{
    if n > 0 {
        lemma_zip_members(entries, n - 1);
    }
}

/// The owners in a Unix extra field read back, and without extra fields there are none.
pub proof fn law_zip_owners_read_back(uid: Seq<u8>, gid: Seq<u8>, rest: Seq<u8>)
    requires
        1 <= uid.len() <= 8,
        1 <= gid.len() <= 8,
    ensures
        ({
            let data = seq![1u8, uid.len() as u8] + uid + seq![gid.len() as u8] + gid;
            zip_ids_from(le16(0x7875) + le16(data.len() as int) + data + rest, 0) == (
                Some(little_value(uid)),
                Some(little_value(gid)),
            )
        }),
        zip_ids_from(Seq::empty(), 0) == (None::<int>, None::<int>),
{
    let data = seq![1u8, uid.len() as u8] + uid + seq![gid.len() as u8] + gid;
    let b = le16(0x7875) + le16(data.len() as int) + data + rest;
    assert(b[0] == le16(0x7875)[0] && b[1] == le16(0x7875)[1]);
    assert(b[2] == le16(data.len() as int)[0] && b[3] == le16(data.len() as int)[1]);
    law_little_endian_numbers_read_back(b, 0, 0x7875);
    law_little_endian_numbers_read_back(b, 2, data.len() as int);
    let own = b.subrange(4, 4 + data.len() as int);
    assert(own =~= data);
    assert(data[0] == 1 && data[1] == uid.len());
    let uid_end = 2 + uid.len() as int;
    assert(data[uid_end] == gid.len() as u8);
    assert(data.subrange(2, uid_end) =~= uid);
    assert(data.subrange(uid_end + 1, uid_end + 1 + gid.len()) =~= gid);
}

/// One more byte in front makes a number 256 times as large and adds the byte.
pub proof fn law_bytes_are_digits_to_the_base_256(b: Seq<u8>, x: u8)
    ensures
        little_value(Seq::<u8>::empty()) == 0,
        big_value(Seq::<u8>::empty()) == 0,
        little_value(seq![x] + b) == x as int + 256 * little_value(b),
        big_value(b.push(x)) == 256 * big_value(b) + x as int,
{
    assert((seq![x] + b).skip(1) =~= b);
    assert(b.push(x).drop_last() =~= b);
}

/// A gzip file tells the time in its header: the four bytes behind the fourth, least significant first.
pub proof fn law_gzip_times_read_back(head: Seq<u8>, time: int, rest: Seq<u8>)
    requires
        head.len() == 4,
        head[0] == 0x1f,
        head[1] == 0x8b,
        0 <= time < 4294967296,
        rest.len() >= 2,
    ensures
        gzip_summary(head + le32(time) + rest) is Some,
        gzip_summary(head + le32(time) + rest)->0.container_mtime == Some(time as i64),
        gzip_summary(head + le32(time) + rest)->0.format == "gzip"@,
{
    let b = head + le32(time) + rest;
    assert(b[0] == head[0] && b[1] == head[1]);
    assert(b[4] == le32(time)[0] && b[5] == le32(time)[1] && b[6] == le32(time)[2] && b[7] == le32(
        time,
    )[3]);
    law_little_endian_numbers_read_back(b, 4, time);
}

/// An archive is read by the reader of its type, if it is of moderate size.
pub proof fn law_archives_are_read_by_their_type(b: Seq<u8>, kind: ArtifactType)
    requires
        b.len() <= 134_217_728,
    ensures
        kind == ArtifactType::Ar || kind == ArtifactType::Deb ==> archive_summary(b, kind)
            == ar_summary(b),
        kind == ArtifactType::Tar || kind == ArtifactType::OciImage ==> archive_summary(b, kind)
            == tar_summary(b),
        kind == ArtifactType::Zip || kind == ArtifactType::Jar || kind == ArtifactType::PythonWheel
            ==> archive_summary(b, kind) == zip_summary(b),
        kind == ArtifactType::Gzip ==> archive_summary(b, kind) == gzip_summary(b),
        kind == ArtifactType::Elf || kind == ArtifactType::Generic ==> archive_summary(b, kind)
            is None,
{
}

/// Whether a text is nothing but spaces and NULs, which fill up the fields of headers.
pub open spec fn is_filler(pad: Seq<char>) -> bool {
    forall|i: int| 0 <= i < pad.len() ==> #[trigger] pad[i] == ' ' || pad[i] == '\0'
}

/// Whether a text neither begins nor ends with a blank.
pub open spec fn is_bare(s: Seq<char>) -> bool {
    s.len() > 0 ==> !is_blank_char(s[0]) && !is_blank_char(s.last())
}

pub open spec fn is_blank_char(c: char) -> bool {
    c == '\0' || c == ' ' || c == '\t' || c == '\n' || c == '\u{b}' || c == '\u{c}' || c == '\r'
        || c as u32 >= 128
}

pub proof fn lemma_trim_end_filler(s: Seq<char>, pad: Seq<char>, class: CharClass)
    requires
        forall|i: int| 0 <= i < pad.len() ==> in_class(class, #[trigger] pad[i]),
        s.len() > 0 ==> !in_class(class, s.last()),
    ensures
        trimmed_end(s + pad, class) == s,
    decreases pad.len(),
{
    let all = s + pad;
    if pad.len() > 0 {
        assert(all.last() == pad[pad.len() - 1]);
        assert(all.drop_last() =~= s + pad.drop_last());
        assert forall|i: int| 0 <= i < pad.drop_last().len() implies in_class(
            class,
            #[trigger] pad.drop_last()[i],
        ) by {
            assert(in_class(class, pad[i]));
        }
        lemma_trim_end_filler(s, pad.drop_last(), class);
    } else {
        assert(all =~= s);
    }
}

pub proof fn lemma_trim_start_filler(pad: Seq<char>, s: Seq<char>, class: CharClass)
    requires
        forall|i: int| 0 <= i < pad.len() ==> in_class(class, #[trigger] pad[i]),
        s.len() > 0 ==> !in_class(class, s[0]),
    ensures
        trimmed_start(pad + s, class) == s,
    decreases pad.len(),
{
    let all = pad + s;
    if pad.len() > 0 {
        assert(in_class(class, pad[0]));
        assert(all[0] == pad[0]);
        let rest = pad.skip(1);
        assert(all.skip(1) =~= rest + s);
        assert forall|i: int| 0 <= i < rest.len() implies in_class(class, #[trigger] rest[i]) by {
            assert(in_class(class, pad[i + 1]));
        }
        lemma_trim_start_filler(rest, s, class);
    } else {
        assert(all =~= s);
    }
}

/// A text that was written into a field and filled up reads back.
pub proof fn law_filled_fields_read_back(text: Seq<char>, pad: Seq<char>)
    requires
        is_filler(pad),
        is_bare(text),
    ensures
        field_text(encode_utf8(text + pad)) == text,
{
    broadcast use vstd::utf8::group_utf8_lib;

    let all = text + pad;
    let none = Seq::<char>::empty();
    assert(decoded_text(encode_utf8(all)) == all);
    assert forall|i: int| 0 <= i < pad.len() implies in_class(CharClass::Padding, #[trigger] pad[i]) by {
        assert(pad[i] == ' ' || pad[i] == '\0');
    }
    if text.len() > 0 {
        assert(all[0] == text[0]);
        assert(none + all =~= all);
        lemma_trim_start_filler(none, all, CharClass::Padding);
        lemma_trim_end_filler(text, pad, CharClass::Padding);
    } else {
        assert(all =~= pad + none);
        lemma_trim_start_filler(pad, none, CharClass::Padding);
        assert(text =~= none);
        assert(trimmed_end(none, CharClass::Padding) =~= none);
    }
}

proof fn lemma_digits_are_bare(n: nat, base: nat)
    requires
        2 <= base <= 16,
    ensures
        digits_of(n, base).len() > 0,
        is_bare(digits_of(n, base)),
        digits_of(n, base)[0] != '-',
        digits_of(n, base)[0] != '+',
        n > 0 ==> digits_of(n, base)[0] != '0',
        n == 0 ==> digits_of(n, base) =~= seq!['0'],
    decreases n,
{
    let s = digits_of(n, base);
    if n < base {
        assert(s[0] == crate::numbers::digit_char(n as int));
    } else {
        assert(0 < n / base < n) by (nonlinear_arith)
            requires
                n >= base,
                base >= 2,
        ;
        assert(n % base < base) by (nonlinear_arith)
            requires
                base >= 2,
        ;
        lemma_digits_are_bare(n / base, base);
        assert(s[0] == digits_of(n / base, base)[0]);
        assert(s.last() == crate::numbers::digit_char((n % base) as int));
    }
}

/// A number that was written into a decimal field reads back, and a negative one into a signed field.
pub proof fn law_decimal_fields_read_back(n: nat, pad: Seq<char>)
    requires
        is_filler(pad),
    ensures
        n <= u64::MAX ==> decimal_field(encode_utf8(digits_of(n, 10) + pad)) == Some(n as int),
        n <= i64::MAX ==> signed_field(encode_utf8(digits_of(n, 10) + pad)) == Some(n as int),
{
    lemma_digits_are_bare(n, 10);
    law_filled_fields_read_back(digits_of(n, 10), pad);
    if n <= u64::MAX {
        law_written_numbers_read_back(n, 10, u64::MAX as int);
    }
    if n <= i64::MAX {
        law_written_numbers_read_back(n, 10, i64::MAX as int);
    }
}

/// A number that was written into an octal field, with zeros in front and filler behind, reads back.
pub proof fn law_octal_fields_read_back(zeros: Seq<char>, n: nat, pad: Seq<char>, max: int)
    requires
        forall|i: int| 0 <= i < zeros.len() ==> #[trigger] zeros[i] == '0',
        is_filler(pad),
        n <= max,
    ensures
        octal_field(encode_utf8(zeros + digits_of(n, 8) + pad), max) == Some(n as int),
{
    lemma_digits_are_bare(n, 8);
    let digits = digits_of(n, 8);
    let text = zeros + digits;
    assert(text[0] == if zeros.len() > 0 {
        zeros[0]
    } else {
        digits[0]
    });
    assert(text.last() == digits.last());
    law_filled_fields_read_back(text, pad);
    let none = Seq::<char>::empty();
    let zero = CharClass::One('0');
    if n > 0 {
        lemma_trim_start_filler(zeros, digits, zero);
        law_written_numbers_read_back(n, 8, max);
    } else {
        assert(text =~= zeros.push('0') + none);
        assert forall|i: int| 0 <= i < zeros.push('0').len() implies in_class(
            zero,
            #[trigger] zeros.push('0')[i],
        ) by {
            if i < zeros.len() {
                assert(zeros[i] == '0');
            }
        }
        lemma_trim_start_filler(zeros.push('0'), none, zero);
    }
}

proof fn lemma_first_byte(c: char, rest: Seq<char>)
    requires
        c == '0' || '1' <= c <= '7',
    ensures
        encode_utf8(seq![c] + rest).len() > 0,
        encode_utf8(seq![c] + rest)[0] < 128,
{
    let all = seq![c] + rest;
    assert(all.drop_first() =~= rest);
    assert(all[0] == c);
    let v = c as u32;
    assert(((v & 0x7f) as u8) < 128) by (bit_vector);
    assert(((v & 0x7F) as u8) < 128);
    assert(encode_utf8(all) == vstd::utf8::encode_scalar(c as u32) + encode_utf8(rest));
}

/// A number in a tar header reads back, written in octal digits or, where the first bit is set, in bytes.
pub proof fn law_tar_numbers_read_back(zeros: Seq<char>, n: nat, pad: Seq<char>, b: Seq<u8>)
    requires
        forall|i: int| 0 <= i < zeros.len() ==> #[trigger] zeros[i] == '0',
        is_filler(pad),
        n <= u64::MAX,
    ensures
        tar_number(encode_utf8(zeros + digits_of(n, 8) + pad)) == Some(n as int),
        big_value(b) <= u64::MAX ==> tar_number(seq![0x80u8] + b) == Some(big_value(b)),
{
    law_octal_fields_read_back(zeros, n, pad, u64::MAX as int);
    lemma_octal_digits(n);
    let digits = digits_of(n, 8);
    let all = zeros + digits + pad;
    let c = all[0];
    assert(c == if zeros.len() > 0 {
        zeros[0]
    } else {
        digits[0]
    });
    assert(all =~= seq![c] + all.skip(1));
    lemma_first_byte(c, all.skip(1));
    let whole = seq![0x80u8] + b;
    let cleared = whole.update(0, 0u8);
    assert(whole[0] == 0x80);
    assert(cleared =~= seq![0u8] + b);
    lemma_leading_zero(b);
}

proof fn lemma_octal_digits(n: nat)
    ensures
        digits_of(n, 8).len() > 0,
        '0' <= digits_of(n, 8)[0] <= '7',
    decreases n,
{
    if n >= 8 {
        lemma_octal_digits(n / 8);
        assert(digits_of(n, 8)[0] == digits_of(n / 8, 8)[0]);
    }
}

proof fn lemma_leading_zero(b: Seq<u8>)
    ensures
        big_value(seq![0u8] + b) == big_value(b),
    decreases b.len(),
{
    let all = seq![0u8] + b;
    if b.len() == 0 {
        assert(all.drop_last() =~= Seq::<u8>::empty());
        assert(big_value(all.drop_last()) == 0);
    } else {
        assert(all.drop_last() =~= seq![0u8] + b.drop_last());
        assert(all.last() == b.last());
        lemma_leading_zero(b.drop_last());
    }
}

/// A member of a tar archive as it is written. The gaps are bytes that say nothing of the member.
pub struct TarEntry {
    pub name: Seq<u8>,
    pub mode: Seq<u8>,
    pub uid: Seq<u8>,
    pub gid: Seq<u8>,
    pub size: Seq<u8>,
    pub mtime: Seq<u8>,
    pub gap148: Seq<u8>,
    pub kind: u8,
    pub gap157: Seq<u8>,
    pub prefix: Seq<u8>,
    pub gap500: Seq<u8>,
    pub data: Seq<u8>,
}

/// Whether an entry is that of a file of so many bytes, and not a record about the next one.
pub open spec fn is_tar_entry(e: TarEntry) -> bool {
    &&& e.name.len() == 100
    &&& e.mode.len() == 8
    &&& e.uid.len() == 8
    &&& e.gid.len() == 8
    &&& e.size.len() == 12
    &&& e.mtime.len() == 12
    &&& e.gap148.len() == 8
    &&& e.gap157.len() == 188
    &&& e.prefix.len() == 155
    &&& e.gap500.len() == 12
    &&& e.kind != 76 && e.kind != 75 && e.kind != 120 && e.kind != 103
    &&& e.data.len() % 512 == 0
    &&& tar_number(e.size) is Some
    &&& tar_number(e.size)->0 <= e.data.len()
    &&& e.data.len() < tar_number(e.size)->0 + 512
    &&& exists|i: int| 0 <= i < 100 && #[trigger] e.name[i] != 0
}

pub open spec fn tar_header(e: TarEntry) -> Seq<u8> {
    e.name + e.mode + e.uid + e.gid + e.size + e.mtime + e.gap148 + seq![e.kind] + e.gap157
        + e.prefix + e.gap500
}

pub open spec fn tar_record(e: TarEntry) -> Seq<u8> {
    tar_header(e) + e.data
}

/// The name of a tar entry: behind its prefix, where it has one.
pub open spec fn tar_entry_name(e: TarEntry) -> Seq<char> {
    let name = nul_text(e.name);
    let prefix = nul_text(e.prefix);
    if prefix.len() > 0 && name.len() > 0 {
        prefix + "/"@ + name
    } else {
        prefix + name
    }
}

/// What is to be read of a tar entry.
pub open spec fn tar_member(e: TarEntry, index: int) -> ArchiveMemberMetadataView {
    ArchiveMemberMetadataView {
        index: index as usize,
        name: tar_entry_name(e),
        size: tar_number(e.size)->0 as u64,
        mtime: match tar_number(e.mtime) {
            Some(n) => if n <= i64::MAX {
                Some(n as i64)
            } else {
                None
            },
            None => None,
        },
        uid: match tar_number(e.uid) {
            Some(n) => Some(n as u64),
            None => None,
        },
        gid: match tar_number(e.gid) {
            Some(n) => Some(n as u64),
            None => None,
        },
        mode: match tar_number(e.mode) {
            Some(n) => if n <= u32::MAX {
                Some(n as u32)
            } else {
                None
            },
            None => None,
        },
    }
}

/// The text in a field that is ended or filled up with NULs reads back.
pub proof fn law_nul_ended_texts_read_back(text: Seq<u8>, rest: Seq<u8>)
    requires
        valid_utf8(text),
        forall|i: int| 0 <= i < text.len() ==> #[trigger] text[i] != 0,
        rest.len() > 0 ==> rest[0] == 0,
    ensures
        nul_text(text + rest) == decode_utf8(text),
{
    let all = text + rest;
    lemma_end_before(all, text.len() as int, 0);
    assert(all.subrange(0, text.len() as int) =~= text);
}

proof fn lemma_end_before(b: Seq<u8>, end: int, from: int)
    requires
        0 <= from <= end <= b.len(),
        end < b.len() ==> b[end] == 0,
        forall|i: int| 0 <= i < end ==> #[trigger] b[i] != 0,
    ensures
        end_before(b, 0, from) == end,
    decreases end - from,
{
    if from < end {
        assert(b[from] != 0);
        lemma_end_before(b, end, from + 1);
    }
}

proof fn lemma_tar_header(e: TarEntry)
    requires
        is_tar_entry(e),
    ensures
        ({
            let h = tar_header(e);
            &&& h.len() == 512
            &&& h.subrange(0, 100) == e.name
            &&& h.subrange(100, 108) == e.mode
            &&& h.subrange(108, 116) == e.uid
            &&& h.subrange(116, 124) == e.gid
            &&& h.subrange(124, 136) == e.size
            &&& h.subrange(136, 148) == e.mtime
            &&& h[156] == e.kind
            &&& h.subrange(345, 500) == e.prefix
        }),
{
    let h = tar_header(e);
    assert(h.subrange(0, 100) =~= e.name);
    assert(h.subrange(100, 108) =~= e.mode);
    assert(h.subrange(108, 116) =~= e.uid);
    assert(h.subrange(116, 124) =~= e.gid);
    assert(h.subrange(124, 136) =~= e.size);
    assert(h.subrange(136, 148) =~= e.mtime);
    assert(h.subrange(345, 500) =~= e.prefix);
}

/// A record of a tar archive is read as what was written: name, mode, owners, size and time, each from
/// its own field; and the reading goes on behind its data.
pub proof fn law_a_tar_record_reads_back(b: Seq<u8>, at: int, e: TarEntry, count: int)
    requires
        is_tar_entry(e),
        0 <= at,
        at + 512 + e.data.len() <= b.len(),
        b.len() <= usize::MAX,
        b.subrange(at, at + 512 + e.data.len()) == tar_record(e),
    ensures
        tar_step(b, at, count, None) == Step::Member(
            tar_member(e, count),
            at + 512 + e.data.len(),
        ),
{
    let h = tar_header(e);
    let r = tar_record(e);
    lemma_tar_header(e);
    assert(b.subrange(at, at + 512) =~= h) by {
        assert forall|i: int| 0 <= i < 512 implies b[at + i] == h[i] by {
            assert(b.subrange(at, at + 512 + e.data.len())[i] == r[i]);
        }
    }
    let size = tar_number(e.size)->0;
    lemma_tar_number_bounds(e.size);
    assert(padded_size(size) == e.data.len()) by {
        let d = e.data.len() as int;
        assert(d == d / 512 * 512);
        assert((size + 511) / 512 == d / 512);
    }
    let i = choose|i: int| 0 <= i < 100 && #[trigger] e.name[i] != 0;
    assert(h[i] == e.name[i]) by {
        assert(h.subrange(0, 100)[i] == e.name[i]);
    }
    assert(!is_zero_block(h));
    let name = nul_text(e.name);
    let prefix = nul_text(e.prefix);
    assert(tar_header_name(h) == tar_entry_name(e)) by {
        if prefix.len() == 0 {
            assert(prefix + name =~= name);
        } else if name.len() == 0 {
            assert(prefix + name =~= prefix);
        }
    }
}

proof fn lemma_tar_number_bounds(b: Seq<u8>)
    ensures
        tar_number(b) matches Some(n) ==> 0 <= n <= u64::MAX,
{
    lemma_big_value_bound(b);
    if b.len() > 0 && b[0] >= 128 {
        lemma_big_value_bound(b.update(0, (b[0] - 128) as u8));
    } else {
        let digits = trimmed_start(field_text(b), CharClass::One('0'));
        lemma_value_bound(crate::numbers::without_plus(digits), 8);
    }
}

proof fn lemma_big_value_bound(b: Seq<u8>)
    ensures
        big_value(b) >= 0,
    decreases b.len(),
{
    if b.len() > 0 {
        lemma_big_value_bound(b.drop_last());
    }
}

pub proof fn lemma_value_bound(s: Seq<char>, base: int)
    requires
        base > 0,
    ensures
        crate::numbers::value_of(s, base) >= 0,
    decreases s.len(),
{
    if s.len() > 0 {
        lemma_value_bound(s.drop_last(), base);
        let v = crate::numbers::value_of(s.drop_last(), base);
        assert(v * base >= 0) by (nonlinear_arith)
            requires
                v >= 0,
                base > 0,
        ;
        lemma_code(s.last());
    }
}

proof fn lemma_code(c: char)
    ensures
        c as int >= 0,
{
}

/// The records of entries one behind the other.
pub open spec fn tar_body(entries: Seq<TarEntry>, from: int) -> Seq<u8>
    decreases entries.len() - from,
{
    if from >= entries.len() {
        Seq::empty()
    } else {
        tar_record(entries[from]) + tar_body(entries, from + 1)
    }
}

pub open spec fn tar_members(entries: Seq<TarEntry>, n: int) -> Seq<ArchiveMemberMetadataView>
    decreases n,
{
    if n <= 0 {
        Seq::empty()
    } else {
        tar_members(entries, n - 1).push(tar_member(entries[n - 1], n - 1))
    }
}

proof fn lemma_tar_body(b: Seq<u8>, at: int, entries: Seq<TarEntry>, n: int, end: Seq<u8>, so_far: Collected)
    requires
        0 <= n <= entries.len() <= 512,
        forall|i: int| 0 <= i < entries.len() ==> is_tar_entry(#[trigger] entries[i]),
        b.len() <= usize::MAX - 512,
        0 <= at <= b.len(),
        end.len() >= 512,
        is_zero_block(end.subrange(0, 512)),
        b.skip(at) == tar_body(entries, n) + end,
        so_far.count == n,
        so_far.members == tar_members(entries, n),
        so_far.members.len() == n,
    ensures
        tar_from(b, at, None, so_far) == Some(
            Collected {
                seen: so_far.seen || n < entries.len(),
                count: entries.len() as int,
                members: tar_members(entries, entries.len() as int),
            },
        ),
    decreases entries.len() - n,
{
    assert(b.skip(at).len() == b.len() - at);
    if n < entries.len() {
        let e = entries[n];
        let r = tar_record(e);
        let rest = tar_body(entries, n + 1) + end;
        lemma_tar_header(e);
        assert(b.skip(at) =~= r + rest);
        assert(b.subrange(at, at + r.len()) =~= r) by {
            assert forall|i: int| 0 <= i < r.len() implies b[at + i] == r[i] by {
                assert(b.skip(at)[i] == (r + rest)[i]);
            }
        }
        law_a_tar_record_reads_back(b, at, e, n);
        assert(b.skip(at + r.len()) =~= rest) by {
            assert forall|i: int| 0 <= i < rest.len() implies b[at + r.len() + i] == rest[i] by {
                assert(b.skip(at)[r.len() + i] == (r + rest)[r.len() + i]);
            }
        }
        let next = Collected {
            seen: true,
            count: so_far.count + 1,
            members: recorded(so_far.members, tar_member(e, n)),
        };
        assert(next.members =~= tar_members(entries, n + 1));
        lemma_tar_body(b, at + r.len(), entries, n + 1, end, next);
    } else {
        assert(b.skip(at) =~= end);
        assert(b.subrange(at, at + 512) =~= end.subrange(0, 512)) by {
            assert forall|i: int| 0 <= i < 512 implies b[at + i] == end[i] by {
                assert(b.skip(at)[i] == end[i]);
            }
        }
    }
}

/// A tar archive that ends with a block of zeros reads back: as many members as were written, each with
/// what was written of it.
pub proof fn law_tar_archives_read_back(entries: Seq<TarEntry>, end: Seq<u8>)
    requires
        1 <= entries.len() <= 512,
        forall|i: int| 0 <= i < entries.len() ==> is_tar_entry(#[trigger] entries[i]),
        end.len() >= 512,
        is_zero_block(end.subrange(0, 512)),
        (tar_body(entries, 0) + end).len() <= usize::MAX - 512,
    ensures
        tar_summary(tar_body(entries, 0) + end) is Some,
        ({
            let summary = tar_summary(tar_body(entries, 0) + end)->0;
            &&& summary.format == "tar"@
            &&& summary.member_count == entries.len()
            &&& !summary.truncated
            &&& summary.members.len() == entries.len()
            &&& forall|i: int|
                0 <= i < entries.len() ==> #[trigger] summary.members[i] == tar_member(
                    entries[i],
                    i,
                )
        }),
{
    let b = tar_body(entries, 0) + end;
    assert(b.skip(0) =~= b);
    lemma_tar_body(b, 0, entries, 0, end, nothing_collected(false));
    lemma_tar_members(entries, entries.len() as int);
}

proof fn lemma_tar_members(entries: Seq<TarEntry>, n: int)
    requires
        0 <= n <= entries.len(),
    ensures
        tar_members(entries, n).len() == n,
        forall|i: int|
            0 <= i < n ==> #[trigger] tar_members(entries, n)[i] == tar_member(entries[i], i),
    decreases n,
{
    if n > 0 {
        lemma_tar_members(entries, n - 1);
    }
}

/// A member of an `ar` archive as it is written.
pub struct ArEntry {
    pub name: Seq<u8>,
    pub mtime: Seq<u8>,
    pub uid: Seq<u8>,
    pub gid: Seq<u8>,
    pub mode: Seq<u8>,
    pub size: Seq<u8>,
    pub data: Seq<u8>,
    /// The name as it is to be read.
    pub text: Seq<char>,
}

/// Whether an entry is that of a file under a short name, which ends at a slash.
pub open spec fn is_ar_entry(e: ArEntry) -> bool {
    &&& e.name.len() == 16
    &&& e.mtime.len() == 12
    &&& e.uid.len() == 6
    &&& e.gid.len() == 6
    &&& e.mode.len() == 8
    &&& e.size.len() == 10
    &&& decimal_field(e.size) == Some(e.data.len() as int)
    &&& field_text(e.name) == e.text + "/"@
    &&& e.text.len() > 0
    &&& is_bare(e.text)
    &&& e.text[0] != '/'
    &&& e.text[0] != '#'
    &&& e.text.last() != '/'
}

pub open spec fn ar_record(e: ArEntry) -> Seq<u8> {
    e.name + e.mtime + e.uid + e.gid + e.mode + e.size + seq![96u8, 10] + e.data + if e.data.len()
        % 2 == 1 {
        seq![10u8]
    } else {
        Seq::empty()
    }
}

/// What is to be read of an `ar` entry.
pub open spec fn ar_member(e: ArEntry, index: int) -> ArchiveMemberMetadataView {
    ArchiveMemberMetadataView {
        index: index as usize,
        name: e.text,
        size: e.data.len() as u64,
        mtime: match signed_field(e.mtime) {
            Some(n) => Some(n as i64),
            None => None,
        },
        uid: match decimal_field(e.uid) {
            Some(n) => Some(n as u64),
            None => None,
        },
        gid: match decimal_field(e.gid) {
            Some(n) => Some(n as u64),
            None => None,
        },
        mode: match octal_field(e.mode, u32::MAX as int) {
            Some(n) => if n <= u32::MAX {
                Some(n as u32)
            } else {
                None
            },
            None => None,
        },
    }
}

/// A record of an `ar` archive is read as what was written: name, time, owners, mode and size, each
/// from its own field; and the reading goes on behind its data, at an even place.
pub proof fn law_an_ar_record_reads_back(b: Seq<u8>, at: int, e: ArEntry, count: int, table: Option<Seq<u8>>)
    requires
        is_ar_entry(e),
        0 <= at,
        at + ar_record(e).len() <= b.len(),
        b.len() <= usize::MAX,
        b.subrange(at, at + ar_record(e).len()) == ar_record(e),
    ensures
        ar_step(b, at, count, table) == ArStep::Member(
            ar_member(e, count),
            at + ar_record(e).len(),
        ),
{
    let r = ar_record(e);
    let h = b.subrange(at, at + 60);
    let n = e.data.len() as int;
    assert(r.len() == 60 + n + n % 2);
    assert forall|i: int| 0 <= i < 60 implies h[i] == #[trigger] r[i] by {
        assert(b.subrange(at, at + r.len())[i] == r[i]);
    }
    assert(h.subrange(0, 16) =~= e.name) by {
        assert forall|i: int| 0 <= i < 16 implies h[i] == e.name[i] by {
            assert(r[i] == e.name[i]);
        }
    }
    assert(h.subrange(16, 28) =~= e.mtime) by {
        assert forall|i: int| 0 <= i < 12 implies h[16 + i] == e.mtime[i] by {
            assert(r[16 + i] == e.mtime[i]);
        }
    }
    assert(h.subrange(28, 34) =~= e.uid) by {
        assert forall|i: int| 0 <= i < 6 implies h[28 + i] == e.uid[i] by {
            assert(r[28 + i] == e.uid[i]);
        }
    }
    assert(h.subrange(34, 40) =~= e.gid) by {
        assert forall|i: int| 0 <= i < 6 implies h[34 + i] == e.gid[i] by {
            assert(r[34 + i] == e.gid[i]);
        }
    }
    assert(h.subrange(40, 48) =~= e.mode) by {
        assert forall|i: int| 0 <= i < 8 implies h[40 + i] == e.mode[i] by {
            assert(r[40 + i] == e.mode[i]);
        }
    }
    assert(h.subrange(48, 58) =~= e.size) by {
        assert forall|i: int| 0 <= i < 10 implies h[48 + i] == e.size[i] by {
            assert(r[48 + i] == e.size[i]);
        }
    }
    assert(r[58] == 96 && r[59] == 10);
    assert(h[58] == 96 && h[59] == 10);
    let raw = e.text + "/"@;
    lemma_ar_name(e.text, b.subrange(at + 60, at + 60 + n), table, n);
    reveal_strlit("/");
    reveal_strlit("//");
    reveal_strlit("/SYM64/");
    assert(raw[0] == e.text[0]);
}

proof fn lemma_ar_name(text: Seq<char>, data: Seq<u8>, table: Option<Seq<u8>>, size: int)
    requires
        text.len() > 0,
        is_bare(text),
        text[0] != '/',
        text[0] != '#',
        text.last() != '/',
    ensures
        crate::artifact::archive::ar_member_name(text + "/"@, data, table, size) == (text, size),
{
    let raw = text + "/"@;
    let none = Seq::<char>::empty();
    reveal_strlit("/");
    reveal_strlit("#1/");
    assert(raw[0] == text[0]);
    if begins_with(raw, "#1/"@) {
        assert(raw.subrange(0, 3)[0] == "#1/"@[0]);
    }
    if begins_with(raw, "/"@) {
        assert(raw.subrange(0, 1)[0] == "/"@[0]);
    }
    lemma_trim_end_filler(text, "/"@, CharClass::One('/'));
    lemma_not_white(text[0]);
    lemma_not_white(text.last());
    assert(none + text =~= text);
    assert(text + none =~= text);
    lemma_trim_start_filler(none, text, CharClass::White);
    lemma_trim_end_filler(text, none, CharClass::White);
}

proof fn lemma_not_white(c: char)
    requires
        !is_blank_char(c),
    ensures
        !in_class(CharClass::White, c),
{
}

pub open spec fn ar_body(entries: Seq<ArEntry>, from: int) -> Seq<u8>
    decreases entries.len() - from,
{
    if from >= entries.len() {
        Seq::empty()
    } else {
        ar_record(entries[from]) + ar_body(entries, from + 1)
    }
}

pub open spec fn ar_members(entries: Seq<ArEntry>, n: int) -> Seq<ArchiveMemberMetadataView>
    decreases n,
{
    if n <= 0 {
        Seq::empty()
    } else {
        ar_members(entries, n - 1).push(ar_member(entries[n - 1], n - 1))
    }
}

proof fn lemma_ar_body(b: Seq<u8>, at: int, entries: Seq<ArEntry>, n: int, so_far: Collected)
    requires
        0 <= n <= entries.len() <= 512,
        forall|i: int| 0 <= i < entries.len() ==> is_ar_entry(#[trigger] entries[i]),
        b.len() <= usize::MAX - 60,
        0 <= at <= b.len(),
        b.skip(at) == ar_body(entries, n),
        so_far.count == n,
        so_far.members == ar_members(entries, n),
        so_far.members.len() == n,
    ensures
        ar_from(b, at, None, so_far) == Some(
            Collected {
                seen: so_far.seen,
                count: entries.len() as int,
                members: ar_members(entries, entries.len() as int),
            },
        ),
    decreases entries.len() - n,
{
    assert(b.skip(at).len() == b.len() - at);
    if n < entries.len() {
        let e = entries[n];
        let r = ar_record(e);
        let rest = ar_body(entries, n + 1);
        assert(b.skip(at) == r + rest);
        assert(b.subrange(at, at + r.len()) =~= r) by {
            assert forall|i: int| 0 <= i < r.len() implies b[at + i] == r[i] by {
                assert(b.skip(at)[i] == (r + rest)[i]);
            }
        }
        law_an_ar_record_reads_back(b, at, e, n, None);
        assert(b.skip(at + r.len()) =~= rest) by {
            assert forall|i: int| 0 <= i < rest.len() implies b[at + r.len() + i] == rest[i] by {
                assert(b.skip(at)[r.len() + i] == (r + rest)[r.len() + i]);
            }
        }
        let next = Collected {
            seen: so_far.seen,
            count: so_far.count + 1,
            members: recorded(so_far.members, ar_member(e, n)),
        };
        assert(next.members =~= ar_members(entries, n + 1));
        lemma_ar_body(b, at + r.len(), entries, n + 1, next);
    }
}

/// An `ar` archive reads back: as many members as were written, each with what was written of it.
pub proof fn law_ar_archives_read_back(entries: Seq<ArEntry>)
    requires
        entries.len() <= 512,
        forall|i: int| 0 <= i < entries.len() ==> is_ar_entry(#[trigger] entries[i]),
        ar_body(entries, 0).len() <= usize::MAX - 68,
    ensures
        ({
            let b = seq![33u8, 60, 97, 114, 99, 104, 62, 10] + ar_body(entries, 0);
            let summary = ar_summary(b)->0;
            &&& ar_summary(b) is Some
            &&& summary.format == "ar"@
            &&& summary.member_count == entries.len()
            &&& !summary.truncated
            &&& summary.members.len() == entries.len()
            &&& forall|i: int|
                0 <= i < entries.len() ==> #[trigger] summary.members[i] == ar_member(entries[i], i)
        }),
{
    let magic = seq![33u8, 60, 97, 114, 99, 104, 62, 10];
    let b = magic + ar_body(entries, 0);
    assert(b.subrange(0, 8) =~= crate::artifact::archive::ar_magic());
    assert(b.skip(8) =~= ar_body(entries, 0));
    lemma_ar_body(b, 8, entries, 0, nothing_collected(true));
    lemma_ar_members(entries, entries.len() as int);
}

proof fn lemma_ar_members(entries: Seq<ArEntry>, n: int)
    requires
        0 <= n <= entries.len(),
    ensures
        ar_members(entries, n).len() == n,
        forall|i: int|
            0 <= i < n ==> #[trigger] ar_members(entries, n)[i] == ar_member(entries[i], i),
    decreases n,
{
    if n > 0 {
        lemma_ar_members(entries, n - 1);
    }
}

} // verus!
