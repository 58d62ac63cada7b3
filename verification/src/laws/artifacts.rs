//! What kind of artifact a file is, and what is recorded of it.
use vstd::prelude::*;

use crate::artifact::archive::{ar_magic, archive_summary};
use crate::artifact::elf::{debug_markers, elf_summary, marker_locations};
use crate::artifact::generic::{
    has_macho_magic, has_tar_magic, is_pe, lower_extension, record_of, records_of, refined_type,
    scanned_markers, some_begins, some_ends, type_of, OutputState,
};
use crate::artifact::semantic::semantic_summary;
use crate::digest::{hex_of, sha256_of};
use crate::model::{ArchiveMemberMetadataView, ArtifactRecordView, ArtifactType, EmbeddedMarkerView};
use crate::ordering::extension_of;
use crate::text::begins_with;

verus! {

/// Whether bytes begin with these four.
pub open spec fn begins(b: Seq<u8>, w: int, x: int, y: int, z: int) -> bool {
    b.len() >= 4 && b[0] == w && b[1] == x && b[2] == y && b[3] == z
}

/// Whether bytes begin as a portable executable and point to its header.
pub open spec fn points_to_pe(b: Seq<u8>) -> bool {
    let at = b[60] as int + 256 * (b[61] as int) + 65_536 * (b[62] as int) + 16_777_216 * (
    b[63] as int);
    &&& b.len() >= 64
    &&& b[0] == 'M' as u8 && b[1] == 'Z' as u8
    &&& at <= 16_777_216
    &&& at + 4 <= b.len()
    &&& b[at] == 'P' as u8 && b[at + 1] == 'E' as u8 && b[at + 2] == 0 && b[at + 3] == 0
}

/// Whether bytes begin with one of the numbers of Mach-O files, in either byte order, thin or fat.
pub open spec fn begins_as_macho(b: Seq<u8>) -> bool {
    ||| begins(b, 0xfe, 0xed, 0xfa, 0xce) || begins(b, 0xce, 0xfa, 0xed, 0xfe)
    ||| begins(b, 0xfe, 0xed, 0xfa, 0xcf) || begins(b, 0xcf, 0xfa, 0xed, 0xfe)
    ||| begins(b, 0xca, 0xfe, 0xba, 0xbe) || begins(b, 0xbe, 0xba, 0xfe, 0xca)
    ||| begins(b, 0xca, 0xfe, 0xba, 0xbf) || begins(b, 0xbf, 0xba, 0xfe, 0xca)
}

/// Whether bytes begin as a zip file, with a member or empty.
pub open spec fn begins_as_zip(b: Seq<u8>) -> bool {
    begins(b, 'P' as int, 'K' as int, 3, 4) || begins(b, 'P' as int, 'K' as int, 5, 6)
}

/// Whether bytes begin as an archive of `ar`.
pub open spec fn begins_as_ar(b: Seq<u8>) -> bool {
    &&& b.len() >= 8
    &&& begins(b, '!' as int, '<' as int, 'a' as int, 'r' as int)
    &&& b[4] == 'c' as u8 && b[5] == 'h' as u8 && b[6] == '>' as u8 && b[7] == 10
}

/// Whether the first block has the mark of `tar` in its place.
pub open spec fn has_ustar(b: Seq<u8>) -> bool {
    &&& b.len() >= 512
    &&& b[257] == 'u' as u8 && b[258] == 's' as u8 && b[259] == 't' as u8 && b[260] == 'a' as u8
        && b[261] == 'r' as u8
}

proof fn lemma_four(b: Seq<u8>, w: u8, x: u8, y: u8, z: u8)
    ensures
        begins_with(b, seq![w, x, y, z]) <==> begins(b, w as int, x as int, y as int, z as int),
{
    let mark = seq![w, x, y, z];
    if b.len() >= 4 {
        let head = b.subrange(0, 4);
        assert(head[0] == b[0] && head[1] == b[1] && head[2] == b[2] && head[3] == b[3]);
        assert(mark[0] == w && mark[1] == x && mark[2] == y && mark[3] == z);
        assert(head =~= mark <==> begins(b, w as int, x as int, y as int, z as int));
    }
}

proof fn lemma_marks(b: Seq<u8>)
    ensures
        is_pe(b) <==> points_to_pe(b),
        has_macho_magic(b) <==> begins_as_macho(b),
        has_tar_magic(b) <==> has_ustar(b),
        begins_with(b, ar_magic()) <==> begins_as_ar(b),
        begins_with(b, seq![0x1fu8, 0x8b]) <==> b.len() >= 2 && b[0] == 0x1f && b[1] == 0x8b,
{
    if b.len() >= 64 {
        let at = crate::bytes::u32_at(b, 0x3c);
        let mark = seq![80u8, 69, 0, 0];
        if at + 4 <= b.len() {
            let found = b.subrange(at, at + 4);
            assert(found[0] == b[at] && found[1] == b[at + 1] && found[2] == b[at + 2] && found[3]
                == b[at + 3]);
            assert(mark[0] == 80 && mark[1] == 69 && mark[2] == 0 && mark[3] == 0);
            assert(found =~= mark <==> b[at] == 80 && b[at + 1] == 69 && b[at + 2] == 0 && b[at + 3]
                == 0);
        }
    }
    if b.len() >= 512 {
        let mark = seq![117u8, 115, 116, 97, 114];
        let found = b.subrange(257, 262);
        assert(found[0] == b[257] && found[1] == b[258] && found[2] == b[259] && found[3] == b[260]
            && found[4] == b[261]);
        assert(mark[0] == 117 && mark[1] == 115 && mark[2] == 116 && mark[3] == 97 && mark[4]
            == 114);
        assert(found =~= mark <==> has_ustar(b));
    }
    if b.len() >= 8 {
        let mark = ar_magic();
        let found = b.subrange(0, 8);
        assert(found[0] == b[0] && found[1] == b[1] && found[2] == b[2] && found[3] == b[3]
            && found[4] == b[4] && found[5] == b[5] && found[6] == b[6] && found[7] == b[7]);
        assert(mark[0] == 33 && mark[1] == 60 && mark[2] == 97 && mark[3] == 114 && mark[4] == 99
            && mark[5] == 104 && mark[6] == 62 && mark[7] == 10);
        assert(found =~= mark <==> begins_as_ar(b));
    }
    if b.len() >= 2 {
        let mark = seq![0x1fu8, 0x8b];
        let found = b.subrange(0, 2);
        assert(found[0] == b[0] && found[1] == b[1]);
        assert(mark[0] == 0x1f && mark[1] == 0x8b);
        assert(found =~= mark <==> b[0] == 0x1f && b[1] == 0x8b);
    }
}

/// The kind of a file is told by its first bytes. The ending of its name tells packages from plain
/// archives, and a tar archive without a mark.
pub proof fn law_files_are_told_by_their_first_bytes(path: Seq<char>, b: Seq<u8>)
    ensures
        ({
            let kind = type_of(path, b);
            let ending = lower_extension(path);
            let elf = begins(b, 0x7f, 'E' as int, 'L' as int, 'F' as int);
            let wasm = begins(b, 0, 'a' as int, 's' as int, 'm' as int);
            let gzip = b.len() >= 2 && b[0] == 0x1f && b[1] == 0x8b;
            let tar = has_ustar(b) || extension_of(path) == Some("tar"@);
            let other = !elf && !points_to_pe(b) && !begins_as_macho(b) && !wasm && !begins_as_zip(b)
                && !gzip && !begins_as_ar(b);
            &&& kind is Elf <==> elf
            &&& kind is PeCoff <==> points_to_pe(b)
            &&& kind is MachO <==> begins_as_macho(b)
            &&& kind is Wasm <==> wasm
            &&& kind is Jar <==> begins_as_zip(b) && ending == "jar"@
            &&& kind is PythonWheel <==> begins_as_zip(b) && ending == "whl"@
            &&& kind is Zip <==> begins_as_zip(b) && ending != "jar"@ && ending != "whl"@
            &&& kind is Gzip <==> gzip
            &&& kind is Deb <==> begins_as_ar(b) && ending == "deb"@
            &&& kind is Ar <==> begins_as_ar(b) && ending != "deb"@
            &&& kind is Tar <==> other && tar
            &&& kind is Generic <==> other && !tar
        }),
{
    lemma_marks(b);
    lemma_four(b, 0x7f, 69, 76, 70);
    lemma_four(b, 0, 97, 115, 109);
    lemma_four(b, 80, 75, 3, 4);
    lemma_four(b, 80, 75, 5, 6);
    reveal_strlit("jar");
    reveal_strlit("whl");
    assert("jar"@[0] == 'j' && "whl"@[0] == 'w');
}

/// Whether a name ends so.
pub open spec fn ends_so(name: Seq<char>, end: Seq<char>) -> bool {
    name.len() >= end.len() && name.skip(name.len() - end.len()) == end
}

/// Whether a name begins so.
pub open spec fn begins_so(name: Seq<char>, start: Seq<char>) -> bool {
    name.len() >= start.len() && name.take(start.len() as int) == start
}

proof fn lemma_members(members: Seq<ArchiveMemberMetadataView>, text: Seq<char>)
    ensures
        some_ends(members, text) <==> exists|i: int|
            0 <= i < members.len() && ends_so((#[trigger] members[i]).name, text),
        some_begins(members, text) <==> exists|i: int|
            0 <= i < members.len() && begins_so((#[trigger] members[i]).name, text),
{
    assert forall|i: int| 0 <= i < members.len() implies (crate::text::finishes_with(
        (#[trigger] members[i]).name,
        text,
    ) <==> ends_so(members[i].name, text)) && (begins_with(members[i].name, text) <==> begins_so(
        members[i].name,
        text,
    )) by {
        let name = members[i].name;
        if name.len() >= text.len() {
            assert(name.subrange(name.len() - text.len(), name.len() as int) =~= name.skip(
                name.len() - text.len(),
            ));
            assert(name.subrange(0, text.len() as int) =~= name.take(text.len() as int));
        }
    }
}

/// An archive is taken for a package exactly if its ending or all the members that make such a package
/// say so; nothing else changes its kind.
pub proof fn law_packages_are_told_by_their_members(
    path: Seq<char>,
    kind: ArtifactType,
    members: Seq<ArchiveMemberMetadataView>,
)
    ensures
        ({
            let refined = refined_type(path, kind, members);
            let ending = lower_extension(path);
            let wheel = ending == "whl"@ || (exists|i: int|
                0 <= i < members.len() && ends_so((#[trigger] members[i]).name, ".dist-info/WHEEL"@))
                && (exists|i: int|
                0 <= i < members.len() && ends_so(
                    (#[trigger] members[i]).name,
                    ".dist-info/METADATA"@,
                ));
            let jar = ending == "jar"@ || (exists|i: int|
                0 <= i < members.len() && (#[trigger] members[i]).name == "META-INF/MANIFEST.MF"@)
                && (exists|i: int|
                0 <= i < members.len() && ends_so((#[trigger] members[i]).name, ".class"@));
            let deb = ending == "deb"@ || (exists|i: int|
                0 <= i < members.len() && (#[trigger] members[i]).name == "debian-binary"@) && (
            exists|i: int|
                0 <= i < members.len() && begins_so((#[trigger] members[i]).name, "control.tar"@))
                && (exists|i: int|
                0 <= i < members.len() && begins_so((#[trigger] members[i]).name, "data.tar"@));
            let image = (exists|i: int|
                0 <= i < members.len() && (#[trigger] members[i]).name == "oci-layout"@) && (exists|
                i: int,
            |
                0 <= i < members.len() && (#[trigger] members[i]).name == "index.json"@) && (exists|
                i: int,
            |
                0 <= i < members.len() && begins_so((#[trigger] members[i]).name, "blobs/sha256/"@));
            &&& kind is Zip ==> (refined is PythonWheel <==> wheel) && (refined is Jar <==> jar
                && !wheel) && (refined is Zip <==> !jar && !wheel)
            &&& kind is Ar ==> (refined is Deb <==> deb) && (refined is Ar <==> !deb)
            &&& kind is Tar ==> (refined is OciImage <==> image) && (refined is Tar <==> !image)
            &&& !(kind is Zip || kind is Ar || kind is Tar) ==> refined == kind
        }),
{
    lemma_members(members, ".dist-info/WHEEL"@);
    lemma_members(members, ".dist-info/METADATA"@);
    lemma_members(members, ".class"@);
    lemma_members(members, "control.tar"@);
    lemma_members(members, "data.tar"@);
    lemma_members(members, "blobs/sha256/"@);
}

/// A record identifies its artifact by path, digest and size, with the markers that it holds.
pub proof fn law_records_identify_their_artifact(
    path: Seq<char>,
    b: Seq<u8>,
    markers: Seq<EmbeddedMarkerView>,
)
    requires
        b.len() <= u64::MAX,
    ensures
        record_of(path, b, markers).logical_path == path,
        record_of(path, b, markers).sha256 == hex_of(sha256_of(b)),
        record_of(path, b, markers).size_bytes == b.len(),
        record_of(path, b, markers).embedded_markers == scanned_markers(b, markers),
{
    reveal(record_of);
}

/// Of ELF files their records tell what the ELF reader finds; of other files they tell nothing such.
pub proof fn law_only_elf_files_have_elf_facts(
    path: Seq<char>,
    b: Seq<u8>,
    markers: Seq<EmbeddedMarkerView>,
)
    ensures
        begins(b, 0x7f, 'E' as int, 'L' as int, 'F' as int) ==> {
            &&& record_of(path, b, markers).elf_metadata == elf_summary(b)
            &&& record_of(path, b, markers).elf_marker_locations == marker_locations(b, markers)
            &&& record_of(path, b, markers).elf_debug_markers == debug_markers(b, markers)
        },
        !begins(b, 0x7f, 'E' as int, 'L' as int, 'F' as int) ==> {
            &&& record_of(path, b, markers).elf_metadata is None
            &&& record_of(path, b, markers).elf_marker_locations.len() == 0
            &&& record_of(path, b, markers).elf_debug_markers.len() == 0
        },
{
    reveal(record_of);
    lemma_elf_kind(path, b);
}

/// A record tells the members of an archive as they were read, and the kind that these make of it.
pub proof fn law_records_tell_what_an_archive_holds(
    path: Seq<char>,
    b: Seq<u8>,
    markers: Seq<EmbeddedMarkerView>,
)
    ensures
        match archive_summary(b, type_of(path, b)) {
            None => record_of(path, b, markers).detected_type == type_of(path, b)
                && record_of(path, b, markers).archive_metadata is None,
            Some(archive) => {
                let r = record_of(path, b, markers);
                &&& r.detected_type == refined_type(path, type_of(path, b), archive.members)
                &&& r.archive_metadata matches Some(told) && told.members == archive.members
                    && told.truncated == archive.truncated && (told.format == archive.format
                    || r.detected_type is Jar || r.detected_type is PythonWheel || r.detected_type
                    is Deb || r.detected_type is OciImage)
            },
        },
        record_of(path, b, markers).semantic_metadata == semantic_summary(
            b,
            record_of(path, b, markers).detected_type,
            record_of(path, b, markers).archive_metadata,
        ),
{
    reveal(record_of);
}

proof fn lemma_elf_kind(path: Seq<char>, b: Seq<u8>)
    ensures
        type_of(path, b) is Elf <==> begins(b, 0x7f, 'E' as int, 'L' as int, 'F' as int),
{
    law_files_are_told_by_their_first_bytes(path, b);
}

/// Whether an output is a file and `record` is its record.
pub open spec fn is_recorded(
    output: String,
    state: OutputState,
    markers: Seq<EmbeddedMarkerView>,
    record: ArtifactRecordView,
) -> bool {
    state is File && record == record_of(output@, state->File_0@, markers)
}

/// The records of a build are those of its declared outputs, in their order, if all of them are files.
/// The first output that is not decides the refusal.
pub proof fn law_every_output_is_recorded(
    outputs: Seq<String>,
    states: Seq<OutputState>,
    markers: Seq<EmbeddedMarkerView>,
    n: int,
)
    requires
        0 <= n <= outputs.len(),
        n <= states.len(),
    ensures
        match records_of(outputs, states, markers, n) {
            Ok(records) => {
                &&& records.len() == n
                &&& forall|i: int|
                    0 <= i < n ==> is_recorded(
                        outputs[i],
                        states[i],
                        markers,
                        #[trigger] records[i],
                    )
            },
            Err(message) => exists|i: int|
                0 <= i < n && !((#[trigger] states[i]) is File) && message == (if states[i]
                    is Missing {
                    "declared build output was not produced: "@ + outputs[i]@
                } else {
                    "declared build output must be a file in v0.1: "@ + outputs[i]@
                }) && forall|j: int| 0 <= j < i ==> (#[trigger] states[j]) is File,
        },
    decreases n,
{
    if n > 0 {
        law_every_output_is_recorded(outputs, states, markers, n - 1);
        match records_of(outputs, states, markers, n - 1) {
            Ok(before) => {
                if states[n - 1] is File {
                    let records = records_of(outputs, states, markers, n)->Ok_0;
                    assert forall|i: int| 0 <= i < n implies is_recorded(
                        outputs[i],
                        states[i],
                        markers,
                        #[trigger] records[i],
                    ) by {
                        if i < n - 1 {
                            assert(records[i] == before[i]);
                        }
                    }
                } else {
                    assert forall|j: int| 0 <= j < n - 1 implies (#[trigger] states[j]) is File by {
                        assert(is_recorded(outputs[j], states[j], markers, before[j]));
                    }
                    assert(!(states[n - 1] is File));
                }
            },
            Err(message) => {
                assert(records_of(outputs, states, markers, n) == Err::<
                    Seq<ArtifactRecordView>,
                    Seq<char>,
                >(message));
            },
        }
    }
}

} // verus!
