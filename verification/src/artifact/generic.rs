//! Artifacts of any type: recognising them, finding markers in them, comparing them across runs.
use vstd::prelude::*;
use vstd::utf8::encode_utf8;

use crate::artifact::archive::{self, archive_summary};
use crate::artifact::elf::{
    contains_bytes, debug_markers, elf_summary, has_bytes, inspect as inspect_elf, marker_locations,
    scan_debug_marker_locations, scan_debug_markers,
};
use crate::artifact::semantic::{self, semantic_summary};
use crate::bytes::{bytes_at, read_u32_le, u32_at};
use crate::digest::{digest_text, sha256_bytes};
use crate::model::{
    ArchiveMemberMetadata, ArchiveMemberMetadataView, ArchiveMetadataSummary,
    ArchiveMetadataSummaryView, ArtifactComparison, ArtifactComparisonView, ArtifactRecord,
    ArtifactRecordView, ArtifactType, BuildRun, ControlledEnvironment, ControlledEnvironmentView,
    ElfMarkerLocation, ElfMarkerLocationView, EmbeddedMarker, EmbeddedMarkerView,
};
use crate::numbers::{decimal, decimal_of};
use crate::ordering::{extension, extension_of, is_same_path, same_path};
use crate::sorting::{sort_unique, sorted_set};
use crate::string_map::{Entries, StringMap};
use crate::text::{begins_with, ends_with, finishes_with, lower, same, stands_at, starts_with};
use crate::text::to_lower;

verus! {

pub const MAX_MARKER_SCAN_BYTES: u64 = 67108864;

/// The extension of a file name in lower case, or nothing.
pub open spec fn lower_extension(path: Seq<char>) -> Seq<char> {
    match extension_of(path) {
        Some(text) => lower(text),
        None => Seq::empty(),
    }
}

pub fn extension_lower(path: &str) -> (r: String)
    ensures
        r@ == lower_extension(path@),
{
    match extension(path) {
        Some(text) => to_lower(text.as_str()),
        None => String::new(),
    }
}

/// Whether a file begins with a DOS header that leads to a PE signature within 16 MiB.
pub open spec fn is_pe(b: Seq<u8>) -> bool {
    let offset = u32_at(b, 0x3c);
    &&& b.len() >= 64
    &&& b[0] == 77
    &&& b[1] == 90
    &&& offset <= 16777216
    &&& stands_at(b, seq![80u8, 69, 0, 0], offset)
}

pub fn is_pe_coff(bytes: &[u8]) -> (r: bool)
    ensures
        r == is_pe(bytes@),
{
    if bytes.len() < 64 || bytes[0] != 77 || bytes[1] != 90 {
        return false;
    }
    let signature: [u8; 4] = [80u8, 69, 0, 0];
    assert(signature@ =~= seq![80u8, 69, 0, 0]);
    match read_u32_le(bytes, 0x3c) {
        Some(offset) => {
            if offset > 16777216 {
                return false;
            }
            bytes_at(bytes, &signature, offset as usize)
        },
        None => false,
    }
}

/// Whether bytes begin with one of the Mach-O or universal binary marks.
pub open spec fn has_macho_magic(b: Seq<u8>) -> bool {
    &&& b.len() >= 4
    &&& {
        ||| b[0] == 0xce && b[1] == 0xfa && b[2] == 0xed && b[3] == 0xfe
        ||| b[0] == 0xfe && b[1] == 0xed && b[2] == 0xfa && b[3] == 0xce
        ||| b[0] == 0xcf && b[1] == 0xfa && b[2] == 0xed && b[3] == 0xfe
        ||| b[0] == 0xfe && b[1] == 0xed && b[2] == 0xfa && b[3] == 0xcf
        ||| b[0] == 0xca && b[1] == 0xfe && b[2] == 0xba && b[3] == 0xbe
        ||| b[0] == 0xbe && b[1] == 0xba && b[2] == 0xfe && b[3] == 0xca
        ||| b[0] == 0xca && b[1] == 0xfe && b[2] == 0xba && b[3] == 0xbf
        ||| b[0] == 0xbf && b[1] == 0xba && b[2] == 0xfe && b[3] == 0xca
    }
}

pub fn is_macho(bytes: &[u8]) -> (r: bool)
    ensures
        r == has_macho_magic(bytes@),
{
    if bytes.len() < 4 {
        return false;
    }
    let (a, b, c, d) = (bytes[0], bytes[1], bytes[2], bytes[3]);
    (a == 0xce && b == 0xfa && c == 0xed && d == 0xfe) || (a == 0xfe && b == 0xed && c == 0xfa && d
        == 0xce) || (a == 0xcf && b == 0xfa && c == 0xed && d == 0xfe) || (a == 0xfe && b == 0xed
        && c == 0xfa && d == 0xcf) || (a == 0xca && b == 0xfe && c == 0xba && d == 0xbe) || (a
        == 0xbe && b == 0xba && c == 0xfe && d == 0xca) || (a == 0xca && b == 0xfe && c == 0xba && d
        == 0xbf) || (a == 0xbf && b == 0xba && c == 0xfe && d == 0xca)
}

/// Whether bytes hold a whole tar header with the `ustar` mark.
pub open spec fn has_tar_magic(b: Seq<u8>) -> bool {
    b.len() >= 512 && stands_at(b, seq![117u8, 115, 116, 97, 114], 257)
}

pub fn is_tar(bytes: &[u8]) -> (r: bool)
    ensures
        r == has_tar_magic(bytes@),
{
    let mark: [u8; 5] = [117u8, 115, 116, 97, 114];
    assert(mark@ =~= seq![117u8, 115, 116, 97, 114]);
    bytes.len() >= 512 && bytes_at(bytes, &mark, 257)
}

/// The type of an artifact by its first bytes and its extension.
pub open spec fn type_of(path: Seq<char>, b: Seq<u8>) -> ArtifactType {
    if begins_with(b, seq![0x7fu8, 69, 76, 70]) {
        ArtifactType::Elf
    } else if is_pe(b) {
        ArtifactType::PeCoff
    } else if has_macho_magic(b) {
        ArtifactType::MachO
    } else if begins_with(b, seq![0u8, 97, 115, 109]) {
        ArtifactType::Wasm
    } else if begins_with(b, seq![80u8, 75, 3, 4]) || begins_with(b, seq![80u8, 75, 5, 6]) {
        if lower_extension(path) == "jar"@ {
            ArtifactType::Jar
        } else if lower_extension(path) == "whl"@ {
            ArtifactType::PythonWheel
        } else {
            ArtifactType::Zip
        }
    } else if begins_with(b, seq![0x1fu8, 0x8b]) {
        ArtifactType::Gzip
    } else if begins_with(b, archive::ar_magic()) {
        if lower_extension(path) == "deb"@ {
            ArtifactType::Deb
        } else {
            ArtifactType::Ar
        }
    } else if has_tar_magic(b) || extension_of(path) == Some("tar"@) {
        ArtifactType::Tar
    } else {
        ArtifactType::Generic
    }
}

pub fn detect_type(path: &str, bytes: &[u8]) -> (r: ArtifactType)
    ensures
        r == type_of(path@, bytes@),
{
    let elf: [u8; 4] = [0x7fu8, 69, 76, 70];
    let wasm: [u8; 4] = [0u8, 97, 115, 109];
    let zip: [u8; 4] = [80u8, 75, 3, 4];
    let empty_zip: [u8; 4] = [80u8, 75, 5, 6];
    let gzip: [u8; 2] = [0x1fu8, 0x8b];
    let ar: [u8; 8] = [33u8, 60, 97, 114, 99, 104, 62, 10];
    assert(elf@ =~= seq![0x7fu8, 69, 76, 70]);
    assert(wasm@ =~= seq![0u8, 97, 115, 109]);
    assert(zip@ =~= seq![80u8, 75, 3, 4]);
    assert(empty_zip@ =~= seq![80u8, 75, 5, 6]);
    assert(gzip@ =~= seq![0x1fu8, 0x8b]);
    assert(ar@ =~= archive::ar_magic());
    if bytes_at(bytes, &elf, 0) {
        return ArtifactType::Elf;
    }
    if is_pe_coff(bytes) {
        return ArtifactType::PeCoff;
    }
    if is_macho(bytes) {
        return ArtifactType::MachO;
    }
    if bytes_at(bytes, &wasm, 0) {
        return ArtifactType::Wasm;
    }
    if bytes_at(bytes, &zip, 0) || bytes_at(bytes, &empty_zip, 0) {
        let ending = extension_lower(path);
        return if same(ending.as_str(), "jar") {
            ArtifactType::Jar
        } else if same(ending.as_str(), "whl") {
            ArtifactType::PythonWheel
        } else {
            ArtifactType::Zip
        };
    }
    if bytes_at(bytes, &gzip, 0) {
        return ArtifactType::Gzip;
    }
    if bytes_at(bytes, &ar, 0) {
        return if same(extension_lower(path).as_str(), "deb") {
            ArtifactType::Deb
        } else {
            ArtifactType::Ar
        };
    }
    let tar_name = match extension(path) {
        Some(text) => same(text.as_str(), "tar"),
        None => false,
    };
    if is_tar(bytes) || tar_name {
        return ArtifactType::Tar;
    }
    ArtifactType::Generic
}

/// Whether some member has this name.
pub open spec fn some_named(members: Seq<ArchiveMemberMetadataView>, name: Seq<char>) -> bool {
    exists|i: int| 0 <= i < members.len() && (#[trigger] members[i]).name == name
}

/// Whether the name of some member begins so.
pub open spec fn some_begins(members: Seq<ArchiveMemberMetadataView>, prefix: Seq<char>) -> bool {
    exists|i: int| 0 <= i < members.len() && begins_with((#[trigger] members[i]).name, prefix)
}

/// Whether the name of some member ends so.
pub open spec fn some_ends(members: Seq<ArchiveMemberMetadataView>, suffix: Seq<char>) -> bool {
    exists|i: int| 0 <= i < members.len() && finishes_with((#[trigger] members[i]).name, suffix)
}

pub fn any_named(members: &Vec<ArchiveMemberMetadata>, name: &str) -> (r: bool)
    ensures
        r == some_named(members.deep_view(), name@),
{
    let ghost view = members.deep_view();
    let mut i: usize = 0;
    while i < members.len()
        invariant
            view == members.deep_view(),
            i <= members@.len(),
            forall|k: int| 0 <= k < i ==> (#[trigger] view[k]).name != name@,
        decreases members.len() - i,
    {
        assert(view[i as int].name == members@[i as int].name@);
        if same(members[i].name.as_str(), name) {
            return true;
        }
        i += 1;
    }
    false
}

pub fn any_begins(members: &Vec<ArchiveMemberMetadata>, prefix: &str) -> (r: bool)
    ensures
        r == some_begins(members.deep_view(), prefix@),
{
    let ghost view = members.deep_view();
    let mut i: usize = 0;
    while i < members.len()
        invariant
            view == members.deep_view(),
            i <= members@.len(),
            forall|k: int| 0 <= k < i ==> !begins_with((#[trigger] view[k]).name, prefix@),
        decreases members.len() - i,
    {
        assert(view[i as int].name == members@[i as int].name@);
        if starts_with(members[i].name.as_str(), prefix) {
            return true;
        }
        i += 1;
    }
    false
}

pub fn any_ends(members: &Vec<ArchiveMemberMetadata>, suffix: &str) -> (r: bool)
    ensures
        r == some_ends(members.deep_view(), suffix@),
{
    let ghost view = members.deep_view();
    let mut i: usize = 0;
    while i < members.len()
        invariant
            view == members.deep_view(),
            i <= members@.len(),
            forall|k: int| 0 <= k < i ==> !finishes_with((#[trigger] view[k]).name, suffix@),
        decreases members.len() - i,
    {
        assert(view[i as int].name == members@[i as int].name@);
        if ends_with(members[i].name.as_str(), suffix) {
            return true;
        }
        i += 1;
    }
    false
}

/// The type of an archive once its members are known.
pub open spec fn refined_type(
    path: Seq<char>,
    kind: ArtifactType,
    members: Seq<ArchiveMemberMetadataView>,
) -> ArtifactType {
    let ending = lower_extension(path);
    match kind {
        ArtifactType::Zip => if ending == "whl"@ || (some_ends(members, ".dist-info/WHEEL"@)
            && some_ends(members, ".dist-info/METADATA"@)) {
            ArtifactType::PythonWheel
        } else if ending == "jar"@ || (some_named(members, "META-INF/MANIFEST.MF"@) && some_ends(
            members,
            ".class"@,
        )) {
            ArtifactType::Jar
        } else {
            ArtifactType::Zip
        },
        ArtifactType::Ar => if ending == "deb"@ || (some_named(members, "debian-binary"@)
            && some_begins(members, "control.tar"@) && some_begins(members, "data.tar"@)) {
            ArtifactType::Deb
        } else {
            ArtifactType::Ar
        },
        ArtifactType::Tar => if some_named(members, "oci-layout"@) && some_named(
            members,
            "index.json"@,
        ) && some_begins(members, "blobs/sha256/"@) {
            ArtifactType::OciImage
        } else {
            ArtifactType::Tar
        },
        other => other,
    }
}

pub fn refine_archive_type(
    path: &str,
    detected_type: ArtifactType,
    metadata: &ArchiveMetadataSummary,
) -> (r: ArtifactType)
    ensures
        r == refined_type(path@, detected_type, metadata.members.deep_view()),
{
    let ending = extension_lower(path);
    let members = &metadata.members;
    match detected_type {
        ArtifactType::Zip => if same(ending.as_str(), "whl") || (any_ends(
            members,
            ".dist-info/WHEEL",
        ) && any_ends(members, ".dist-info/METADATA")) {
            ArtifactType::PythonWheel
        } else if same(ending.as_str(), "jar") || (any_named(members, "META-INF/MANIFEST.MF")
            && any_ends(members, ".class")) {
            ArtifactType::Jar
        } else {
            ArtifactType::Zip
        },
        ArtifactType::Ar => if same(ending.as_str(), "deb") || (any_named(members, "debian-binary")
            && any_begins(members, "control.tar") && any_begins(members, "data.tar")) {
            ArtifactType::Deb
        } else {
            ArtifactType::Ar
        },
        ArtifactType::Tar => if any_named(members, "oci-layout") && any_named(members, "index.json")
            && any_begins(members, "blobs/sha256/") {
            ArtifactType::OciImage
        } else {
            ArtifactType::Tar
        },
        other => other,
    }
}

/// What the format of an archive of this type is called.
pub open spec fn format_name(kind: ArtifactType, fallback: Seq<char>) -> Seq<char> {
    match kind {
        ArtifactType::Jar => "jar"@,
        ArtifactType::PythonWheel => "python_wheel"@,
        ArtifactType::Deb => "deb"@,
        ArtifactType::OciImage => "oci_image_tar"@,
        _ => fallback,
    }
}

pub fn archive_format_name<'a>(detected_type: ArtifactType, fallback: &'a str) -> (r: &'a str)
    ensures
        r@ == format_name(detected_type, fallback@),
{
    match detected_type {
        ArtifactType::Jar => "jar",
        ArtifactType::PythonWheel => "python_wheel",
        ArtifactType::Deb => "deb",
        ArtifactType::OciImage => "oci_image_tar",
        _ => fallback,
    }
}

/// A marker, if its value is at least four bytes long.
pub open spec fn marker_if_long(variable: Seq<char>, value: Seq<char>) -> Seq<EmbeddedMarkerView> {
    if encode_utf8(value).len() >= 4 {
        seq![EmbeddedMarkerView { variable, value }]
    } else {
        Seq::empty()
    }
}

/// The dates by which a tool may show a build timestamp.
pub open spec fn date_markers(variable: Seq<char>, epoch: Seq<char>) -> Seq<EmbeddedMarkerView> {
    if epoch == "946684800"@ {
        marker_if_long(variable, "Jan  1 2000"@) + marker_if_long(variable, "Jan 01 2000"@)
            + marker_if_long(variable, "2000-01-01"@)
    } else if epoch == "1577836800"@ {
        marker_if_long(variable, "Jan  1 2020"@) + marker_if_long(variable, "Jan 01 2020"@)
            + marker_if_long(variable, "2020-01-01"@)
    } else {
        Seq::empty()
    }
}

/// The markers of the first `n` environment variables.
pub open spec fn variable_markers(entries: Entries, n: int) -> Seq<EmbeddedMarkerView>
    decreases n,
{
    if n <= 0 {
        Seq::empty()
    } else {
        let key = entries[n - 1].0;
        let value = entries[n - 1].1;
        variable_markers(entries, n - 1) + marker_if_long(key, value) + if key
            == "SOURCE_DATE_EPOCH"@ {
            date_markers(key, value)
        } else {
            Seq::empty()
        }
    }
}

/// All markers that an environment may leave in an artifact, as they are found.
pub open spec fn found_markers(e: ControlledEnvironmentView) -> Seq<EmbeddedMarkerView> {
    marker_if_long("source_path"@, e.container_source_path) + marker_if_long(
        "build_path"@,
        e.container_work_path,
    ) + (match e.hostname {
        Some(name) => marker_if_long("hostname"@, name),
        None => Seq::empty(),
    }) + (match e.cpu_count {
        Some(n) => marker_if_long("cpu_count"@, decimal_of(n as int)),
        None => Seq::empty(),
    }) + variable_markers(e.environment, e.environment.len() as int)
}

pub fn push_marker(markers: &mut Vec<EmbeddedMarker>, variable: &str, value: &str)
    ensures
        final(markers).deep_view() == old(markers).deep_view() + marker_if_long(variable@, value@),
{
    let ghost had = markers.deep_view();
    if value.as_bytes().len() >= 4 {
        let marker = EmbeddedMarker { variable: variable.to_owned(), value: value.to_owned() };
        let ghost view = marker.deep_view();
        markers.push(marker);
        assert(markers.deep_view() =~= had + seq![view]);
    } else {
        assert(markers.deep_view() =~= had + Seq::<EmbeddedMarkerView>::empty());
    }
}

/// Adds the dates by which a tool may show a build timestamp.
pub fn source_date_epoch_markers(markers: &mut Vec<EmbeddedMarker>, variable: &str, value: &str)
    ensures
        final(markers).deep_view() == old(markers).deep_view() + date_markers(variable@, value@),
{
    let ghost had = markers.deep_view();
    if same(value, "946684800") {
        push_marker(markers, variable, "Jan  1 2000");
        push_marker(markers, variable, "Jan 01 2000");
        push_marker(markers, variable, "2000-01-01");
    } else if same(value, "1577836800") {
        push_marker(markers, variable, "Jan  1 2020");
        push_marker(markers, variable, "Jan 01 2020");
        push_marker(markers, variable, "2020-01-01");
    }
    assert(markers.deep_view() =~= had + date_markers(variable@, value@));
}

fn push_variable_markers(markers: &mut Vec<EmbeddedMarker>, environment: &StringMap)
    ensures
        final(markers).deep_view() == old(markers).deep_view() + variable_markers(
            environment.deep_view(),
            environment.deep_view().len() as int,
        ),
{
    let ghost had = markers.deep_view();
    let entries = environment.entries();
    let mut n: usize = 0;
    assert(had + Seq::<EmbeddedMarkerView>::empty() =~= had);
    while n < entries.len()
        invariant
            entries.deep_view() == environment.deep_view(),
            n <= entries@.len(),
            markers.deep_view() == had + variable_markers(environment.deep_view(), n as int),
        decreases entries.len() - n,
    {
        assert(environment.deep_view()[n as int].0 == entries@[n as int].0@);
        assert(environment.deep_view()[n as int].1 == entries@[n as int].1@);
        let key = entries[n].0.as_str();
        let value = entries[n].1.as_str();
        push_marker(markers, key, value);
        if same(key, "SOURCE_DATE_EPOCH") {
            source_date_epoch_markers(markers, key, value);
        }
        n += 1;
        assert(markers.deep_view() =~= had + variable_markers(environment.deep_view(), n as int));
    }
}

/// The markers that an environment may leave in an artifact, in order and each once.
pub fn marker_candidates(controlled: &ControlledEnvironment) -> (r: Vec<EmbeddedMarker>)
    ensures
        r.deep_view() == sorted_set::<EmbeddedMarker>(found_markers(controlled.deep_view())),
{
    let mut markers: Vec<EmbeddedMarker> = Vec::new();
    assert(markers.deep_view() =~= Seq::<EmbeddedMarkerView>::empty());
    push_marker(&mut markers, "source_path", controlled.container_source_path.as_str());
    push_marker(&mut markers, "build_path", controlled.container_work_path.as_str());
    if let Some(hostname) = &controlled.hostname {
        push_marker(&mut markers, "hostname", hostname.as_str());
    }
    if let Some(cpu_count) = controlled.cpu_count {
        push_marker(&mut markers, "cpu_count", decimal(cpu_count as u128).as_str());
    }
    push_variable_markers(&mut markers, &controlled.environment);
    assert(markers.deep_view() =~= found_markers(controlled.deep_view()));
    sort_unique(markers)
}

/// The first `m` markers that occur in a file.
pub open spec fn markers_in(b: Seq<u8>, markers: Seq<EmbeddedMarkerView>, m: int) -> Seq<
    EmbeddedMarkerView,
>
    decreases m,
{
    if m <= 0 {
        Seq::empty()
    } else if has_bytes(b, encode_utf8(markers[m - 1].value)) {
        markers_in(b, markers, m - 1).push(markers[m - 1])
    } else {
        markers_in(b, markers, m - 1)
    }
}

/// The markers that occur in a file of moderate size.
pub open spec fn scanned_markers(b: Seq<u8>, markers: Seq<EmbeddedMarkerView>) -> Seq<
    EmbeddedMarkerView,
> {
    if b.len() > MAX_MARKER_SCAN_BYTES {
        Seq::empty()
    } else {
        markers_in(b, markers, markers.len() as int)
    }
}

pub fn scan_markers(bytes: &[u8], markers: &Vec<EmbeddedMarker>) -> (r: Vec<EmbeddedMarker>)
    ensures
        r.deep_view() == scanned_markers(bytes@, markers.deep_view()),
{
    let mut found: Vec<EmbeddedMarker> = Vec::new();
    assert(found.deep_view() =~= Seq::<EmbeddedMarkerView>::empty());
    if bytes.len() as u64 > MAX_MARKER_SCAN_BYTES {
        return found;
    }
    let mut m: usize = 0;
    while m < markers.len()
        invariant
            m <= markers@.len(),
            found.deep_view() == markers_in(bytes@, markers.deep_view(), m as int),
        decreases markers.len() - m,
    {
        assert(markers.deep_view()[m as int] == markers@[m as int].deep_view());
        if contains_bytes(bytes, markers[m].value.as_str().as_bytes()) {
            let ghost had = found.deep_view();
            let marker = markers[m].clone();
            let ghost view = marker.deep_view();
            found.push(marker);
            assert(found.deep_view() =~= had.push(view));
        }
        m += 1;
    }
    found
}

/// The record of an artifact: what it is, what it holds and which markers occur in it.
#[verifier::opaque]
pub open spec fn record_of(path: Seq<char>, b: Seq<u8>, markers: Seq<EmbeddedMarkerView>) -> ArtifactRecordView {
    let first = type_of(path, b);
    let archive = archive_summary(b, first);
    let kind = match archive {
        Some(metadata) => refined_type(path, first, metadata.members),
        None => first,
    };
    let named = match archive {
        Some(metadata) => Some(
            ArchiveMetadataSummaryView { format: format_name(kind, metadata.format), ..metadata },
        ),
        None => None,
    };
    ArtifactRecordView {
        logical_path: path,
        sha256: digest_text(b),
        size_bytes: b.len() as u64,
        detected_type: kind,
        embedded_markers: scanned_markers(b, markers),
        elf_debug_markers: if first is Elf {
            debug_markers(b, markers)
        } else {
            Seq::empty()
        },
        elf_marker_locations: if first is Elf {
            marker_locations(b, markers)
        } else {
            Seq::empty()
        },
        elf_metadata: if first is Elf {
            elf_summary(b)
        } else {
            None
        },
        archive_metadata: named,
        semantic_metadata: semantic_summary(b, kind, named),
    }
}

/// Describes an artifact that has been read. `markers` are what the environment may have left.
pub fn describe_artifact(path: &str, bytes: &[u8], markers: &Vec<EmbeddedMarker>) -> (r: ArtifactRecord)
    ensures
        r.deep_view() == record_of(path@, bytes@, markers.deep_view()),
{
    reveal(record_of);
    let first = detect_type(path, bytes);
    let list = markers.as_slice();
    assert(list.deep_view() =~= markers.deep_view());
    let (elf_debug_markers, elf_marker_locations, elf_metadata) = match first {
        ArtifactType::Elf => (
            scan_debug_markers(bytes, list),
            scan_debug_marker_locations(bytes, list),
            inspect_elf(bytes),
        ),
        _ => {
            let a: Vec<EmbeddedMarker> = Vec::new();
            let b: Vec<ElfMarkerLocation> = Vec::new();
            assert(a.deep_view() =~= Seq::<EmbeddedMarkerView>::empty());
            assert(b.deep_view() =~= Seq::<ElfMarkerLocationView>::empty());
            (a, b, None)
        },
    };
    let mut detected_type = first;
    let mut archive_metadata = archive::inspect(bytes, first);
    if let Some(metadata) = archive_metadata {
        detected_type = refine_archive_type(path, first, &metadata);
        let format = archive_format_name(detected_type, metadata.format.as_str()).to_owned();
        archive_metadata = Some(
            ArchiveMetadataSummary {
                format,
                member_count: metadata.member_count,
                members: metadata.members,
                truncated: metadata.truncated,
                container_mtime: metadata.container_mtime,
            },
        );
    }
    let semantic_metadata = semantic::inspect(bytes, detected_type, &archive_metadata);
    ArtifactRecord {
        logical_path: path.to_owned(),
        sha256: sha256_bytes(bytes),
        size_bytes: bytes.len() as u64,
        detected_type,
        embedded_markers: scan_markers(bytes, markers),
        elf_debug_markers,
        elf_marker_locations,
        elf_metadata,
        archive_metadata,
        semantic_metadata,
    }
}

/// What the file system says of a declared output.
#[derive(Debug, PartialEq)]
pub enum OutputState {
    Missing,
    NotAFile,
    /// A file and its content.
    File(Vec<u8>),
}

/// The records of the first `n` outputs, or why there is none.
pub open spec fn records_of(
    outputs: Seq<String>,
    states: Seq<OutputState>,
    markers: Seq<EmbeddedMarkerView>,
    n: int,
) -> Result<Seq<ArtifactRecordView>, Seq<char>>
    decreases n,
{
    if n <= 0 {
        Ok(Seq::empty())
    } else {
        match records_of(outputs, states, markers, n - 1) {
            Err(message) => Err(message),
            Ok(before) => match states[n - 1] {
                OutputState::Missing => Err(
                    "declared build output was not produced: "@ + outputs[n - 1]@,
                ),
                OutputState::NotAFile => Err(
                    "declared build output must be a file in v0.1: "@ + outputs[n - 1]@,
                ),
                OutputState::File(bytes) => Ok(
                    before.push(record_of(outputs[n - 1]@, bytes@, markers)),
                ),
            },
        }
    }
}

proof fn lemma_records_fail(
    outputs: Seq<String>,
    states: Seq<OutputState>,
    markers: Seq<EmbeddedMarkerView>,
    n: int,
    m: int,
)
    requires
        0 <= n <= m,
        records_of(outputs, states, markers, n) is Err,
    ensures
        records_of(outputs, states, markers, m) == records_of(outputs, states, markers, n),
    decreases m,
{
    if n < m {
        lemma_records_fail(outputs, states, markers, n, m - 1);
    }
}

/// Describes the declared outputs of a build, or names the first that is missing or no file.
pub fn collect_artifacts(
    outputs: &Vec<String>,
    states: &Vec<OutputState>,
    controlled_environment: &ControlledEnvironment,
) -> (r: Result<Vec<ArtifactRecord>, String>)
    requires
        outputs@.len() == states@.len(),
    ensures
        ({
            let markers = sorted_set::<EmbeddedMarker>(
                found_markers(controlled_environment.deep_view()),
            );
            match r {
                Ok(records) => records_of(outputs@, states@, markers, outputs@.len() as int) == Ok::<
                    Seq<ArtifactRecordView>,
                    Seq<char>,
                >(records.deep_view()),
                Err(message) => records_of(outputs@, states@, markers, outputs@.len() as int)
                    == Err::<Seq<ArtifactRecordView>, Seq<char>>(message@),
            }
        }),
{
    let markers = marker_candidates(controlled_environment);
    let ghost view = markers.deep_view();
    let mut records: Vec<ArtifactRecord> = Vec::new();
    let mut n: usize = 0;
    assert(records.deep_view() =~= Seq::<ArtifactRecordView>::empty());
    while n < outputs.len()
        invariant
            outputs@.len() == states@.len(),
            view == markers.deep_view(),
            view == sorted_set::<EmbeddedMarker>(found_markers(controlled_environment.deep_view())),
            n <= outputs@.len(),
            records_of(outputs@, states@, view, n as int) == Ok::<
                Seq<ArtifactRecordView>,
                Seq<char>,
            >(records.deep_view()),
        decreases outputs.len() - n,
    {
        let output = outputs[n].as_str();
        match &states[n] {
            OutputState::Missing => {
                proof {
                    lemma_records_fail(outputs@, states@, view, n + 1, outputs@.len() as int);
                }
                return Err(crate::text::concat("declared build output was not produced: ", output));
            },
            OutputState::NotAFile => {
                proof {
                    lemma_records_fail(outputs@, states@, view, n + 1, outputs@.len() as int);
                }
                return Err(
                    crate::text::concat("declared build output must be a file in v0.1: ", output),
                );
            },
            OutputState::File(bytes) => {
                let ghost had = records.deep_view();
                let record = describe_artifact(output, bytes.as_slice(), &markers);
                let ghost own = record.deep_view();
                records.push(record);
                assert(records.deep_view() =~= had.push(own));
            },
        }
        n += 1;
    }
    Ok(records)
}

/// The first artifact of a run, at or after `from`, at this path.
pub open spec fn artifact_at(artifacts: Seq<ArtifactRecord>, path: Seq<char>, from: int) -> Option<
    int,
>
    decreases artifacts.len() - from,
{
    if from >= artifacts.len() {
        None
    } else if is_same_path(artifacts[from].logical_path@, path) {
        Some(from)
    } else {
        artifact_at(artifacts, path, from + 1)
    }
}

pub fn find_artifact(artifacts: &Vec<ArtifactRecord>, path: &str) -> (r: Option<usize>)
    ensures
        match r {
            Some(i) => i < artifacts@.len() && artifact_at(artifacts@, path@, 0) == Some(i as int),
            None => artifact_at(artifacts@, path@, 0) is None,
        },
{
    let mut i: usize = 0;
    while i < artifacts.len()
        invariant
            i <= artifacts@.len(),
            artifact_at(artifacts@, path@, 0) == artifact_at(artifacts@, path@, i as int),
        decreases artifacts.len() - i,
    {
        if same_path(artifacts[i].logical_path.as_str(), path) {
            return Some(i);
        }
        i += 1;
    }
    None
}

/// The digests of the artifact at `path` in those of the first `n` runs that have it.
pub open spec fn hashes_at(runs: Seq<BuildRun>, path: Seq<char>, n: int) -> Seq<Seq<char>>
    decreases n,
{
    if n <= 0 {
        Seq::empty()
    } else {
        match artifact_at(runs[n - 1].artifacts@, path, 0) {
            Some(i) => hashes_at(runs, path, n - 1).push(runs[n - 1].artifacts@[i].sha256@),
            None => hashes_at(runs, path, n - 1),
        }
    }
}

pub open spec fn all_equal(hashes: Seq<Seq<char>>) -> bool {
    forall|i: int, j: int|
        0 <= i < hashes.len() && 0 <= j < hashes.len() ==> #[trigger] hashes[i]
            == #[trigger] hashes[j]
}

/// How the artifact at `path` compares across runs.
pub open spec fn comparison_of(runs: Seq<BuildRun>, path: Seq<char>) -> ArtifactComparisonView {
    let hashes = hashes_at(runs, path, runs.len() as int);
    ArtifactComparisonView {
        logical_path: path,
        equal_across_runs: hashes.len() == runs.len() && all_equal(hashes),
        hashes,
    }
}

/// One comparison for each artifact of the first run.
pub open spec fn comparisons_of(runs: Seq<BuildRun>) -> Seq<ArtifactComparisonView> {
    if runs.len() == 0 {
        Seq::empty()
    } else {
        Seq::new(
            runs[0].artifacts@.len(),
            |i: int| comparison_of(runs, runs[0].artifacts@[i].logical_path@),
        )
    }
}

fn compare_artifact(runs: &Vec<BuildRun>, path: &str) -> (r: ArtifactComparison)
    ensures
        r.deep_view() == comparison_of(runs@, path@),
{
    let mut hashes: Vec<String> = Vec::new();
    let mut n: usize = 0;
    assert(hashes.deep_view() =~= Seq::<Seq<char>>::empty());
    while n < runs.len()
        invariant
            n <= runs@.len(),
            hashes.deep_view() == hashes_at(runs@, path@, n as int),
        decreases runs.len() - n,
    {
        match find_artifact(&runs[n].artifacts, path) {
            Some(i) => {
                let ghost had = hashes.deep_view();
                let hash = runs[n].artifacts[i].sha256.clone();
                let ghost text = hash@;
                hashes.push(hash);
                assert(hashes.deep_view() =~= had.push(text));
            },
            None => {},
        }
        n += 1;
    }
    let ghost view = hashes.deep_view();
    let mut equal = true;
    let mut i: usize = 1;
    while i < hashes.len()
        invariant
            view == hashes.deep_view(),
            1 <= i,
            hashes@.len() > 0 ==> i <= hashes@.len(),
            equal == forall|k: int| 0 <= k < i && k < view.len() ==> #[trigger] view[k] == view[0],
        decreases hashes.len() - i,
    {
        assert(view[i as int] == hashes@[i as int]@ && view[0] == hashes@[0]@);
        if hashes[i] != hashes[0] {
            equal = false;
        }
        i += 1;
    }
    assert(equal == all_equal(view)) by {
        if equal {
            assert forall|a: int, b: int| 0 <= a < view.len() && 0 <= b < view.len() implies
                #[trigger] view[a] == #[trigger] view[b] by {
                assert(view[a] == view[0] && view[b] == view[0]);
            }
        } else {
            let k = choose|k: int| 0 <= k < i && k < view.len() && #[trigger] view[k] != view[0];
            assert(view[k] != view[0]);
        }
    }
    ArtifactComparison {
        logical_path: path.to_owned(),
        equal_across_runs: hashes.len() == runs.len() && equal,
        hashes,
    }
}

/// How each artifact of the first run compares across all runs.
pub fn compare_runs(runs: &Vec<BuildRun>) -> (r: Vec<ArtifactComparison>)
    ensures
        r.deep_view() == comparisons_of(runs@),
{
    let mut comparisons: Vec<ArtifactComparison> = Vec::new();
    if runs.len() == 0 {
        assert(comparisons.deep_view() =~= comparisons_of(runs@));
        return comparisons;
    }
    let mut i: usize = 0;
    while i < runs[0].artifacts.len()
        invariant
            runs@.len() > 0,
            i <= runs@[0].artifacts@.len(),
            comparisons@.len() == i,
            forall|k: int|
                0 <= k < i ==> (#[trigger] comparisons@[k]).deep_view() == comparison_of(
                    runs@,
                    runs@[0].artifacts@[k].logical_path@,
                ),
        decreases runs[0].artifacts.len() - i,
    {
        comparisons.push(compare_artifact(runs, runs[0].artifacts[i].logical_path.as_str()));
        i += 1;
    }
    assert(comparisons.deep_view() =~= comparisons_of(runs@));
    comparisons
}

} // verus!
