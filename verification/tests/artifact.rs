use reprobisect::artifact::archive::{
    self, days_from_civil, dos_datetime_to_unix, inspect_ar, inspect_gzip, inspect_tar, inspect_zip,
    tar_name,
};
use reprobisect::artifact::elf::{
    contains_bytes, parse_elf, parse_gnu_build_id, scan_debug_marker_locations, scan_debug_markers,
    section_bytes, Endian,
};
use reprobisect::artifact::generic::{
    collect_artifacts, compare_runs, describe_artifact, detect_type, marker_candidates,
    refine_archive_type, OutputState,
};
use reprobisect::artifact::semantic::{
    self, inspect_macho, inspect_pe_coff, inspect_wasm, parse_header_fields, read_uleb128, summary,
};
use reprobisect::digest::sha256_bytes;
use reprobisect::model::{
    ArchiveMemberMetadata, ArchiveMetadataField, ArchiveMetadataSummary, ArtifactType,
    ControlledEnvironment, EmbeddedMarker,
};
use reprobisect::string_map::StringMap;

fn ar_header(name: &str, mtime: i64, mode: u32, data: &[u8]) -> Vec<u8> {
    let header = format!(
        "{:<16}{:<12}{:<6}{:<6}{:<8o}{:<10}`\n",
        name,
        mtime,
        1000,
        1000,
        mode,
        data.len()
    );
    assert_eq!(header.len(), 60);
    let mut bytes = header.into_bytes();
    bytes.extend_from_slice(data);
    if data.len() % 2 == 1 {
        bytes.push(b'\n');
    }
    bytes
}

#[test]
fn parses_ar_member_metadata() {
    let mut bytes = b"!<arch>\n".to_vec();
    bytes.extend(ar_header("member.txt/", 946684800, 0o644, b"hello"));
    let summary = inspect_ar(&bytes).unwrap();
    assert_eq!(summary.member_count, 1);
    assert_eq!(summary.members[0].name, "member.txt");
    assert_eq!(summary.members[0].mtime, Some(946684800));
    assert_eq!(summary.members[0].mode, Some(0o644));
}

#[test]
fn archive_compare_finds_structural_mtime_change() {
    let baseline = ArchiveMetadataSummary {
        format: "ar".into(),
        member_count: 1,
        members: vec![ArchiveMemberMetadata {
            index: 0,
            name: "a.o".into(),
            size: 3,
            mtime: Some(1),
            uid: Some(0),
            gid: Some(0),
            mode: Some(0o644),
        }],
        truncated: false,
        container_mtime: None,
    };
    let mut variant = baseline.clone();
    variant.members[0].mtime = Some(2);
    let differences = archive::compare(&baseline, &variant);
    assert!(differences
        .iter()
        .any(|difference| difference.field == ArchiveMetadataField::Mtime));
}

#[test]
fn equal_archives_do_not_differ() {
    let archive = archive_summary(&["a", "b"], "tar");
    assert!(archive::compare(&archive, &archive.clone()).is_empty());
}

#[test]
fn converts_dos_epoch_boundary() {
    let date: u16 = (1 << 5) | 1; // 1980-01-01
    assert_eq!(dos_datetime_to_unix(date, 0), Some(315_532_800));
}

#[test]
fn a_dos_date_without_a_month_is_refused() {
    assert_eq!(dos_datetime_to_unix(1, 0), None);
}

#[test]
fn reads_tar_and_gzip_headers() {
    let mut header = vec![0_u8; 512];
    header[..5].copy_from_slice(b"a.txt");
    header[100..107].copy_from_slice(b"0000644");
    header[108..115].copy_from_slice(b"0001750");
    header[116..123].copy_from_slice(b"0001750");
    header[124..135].copy_from_slice(b"00000000005");
    header[136..147].copy_from_slice(b"07033325000");
    header[257..262].copy_from_slice(b"ustar");
    let mut tar = header;
    tar.extend_from_slice(b"hello");
    tar.resize(512 * 4, 0);
    let summary = inspect_tar(&tar).unwrap();
    assert_eq!(summary.member_count, 1);
    assert_eq!(summary.members[0].name, "a.txt");
    assert_eq!(summary.members[0].size, 5);
    assert_eq!(summary.members[0].mode, Some(0o644));
    assert_eq!(summary.members[0].uid, Some(1000));
    assert_eq!(summary.members[0].mtime, Some(946_711_040));

    let gzip = [0x1f, 0x8b, 8, 0, 1, 0, 0, 0, 0, 3];
    assert_eq!(inspect_gzip(&gzip).unwrap().container_mtime, Some(1));
    assert!(inspect_gzip(b"plain").is_none());
    assert!(inspect_zip(b"plain").is_none());
}

#[test]
fn rejects_non_elf() {
    assert!(parse_elf(b"not an elf").is_none());
}

fn minimal_elf() -> Vec<u8> {
    let mut bytes = vec![0_u8; 64 + 3 * 64];
    bytes[0..4].copy_from_slice(b"\x7fELF");
    bytes[4] = 2;
    bytes[5] = 1;
    bytes[6] = 1;

    let shoff = 64_u64;
    bytes[0x28..0x30].copy_from_slice(&shoff.to_le_bytes());
    bytes[0x3a..0x3c].copy_from_slice(&64_u16.to_le_bytes());
    bytes[0x3c..0x3e].copy_from_slice(&3_u16.to_le_bytes());
    bytes[0x3e..0x40].copy_from_slice(&1_u16.to_le_bytes());

    let names = b"\0.shstrtab\0.debug_str\0";
    let names_offset = bytes.len();
    bytes.extend_from_slice(names);
    let debug_offset = bytes.len();
    bytes.extend_from_slice(b"prefix /workspace/main.c suffix\0");

    let sh1 = 64 + 64;
    bytes[sh1..sh1 + 4].copy_from_slice(&1_u32.to_le_bytes());
    bytes[sh1 + 0x18..sh1 + 0x20].copy_from_slice(&(names_offset as u64).to_le_bytes());
    bytes[sh1 + 0x20..sh1 + 0x28].copy_from_slice(&(names.len() as u64).to_le_bytes());

    let sh2 = 64 + 2 * 64;
    bytes[sh2..sh2 + 4].copy_from_slice(&11_u32.to_le_bytes());
    bytes[sh2 + 0x18..sh2 + 0x20].copy_from_slice(&(debug_offset as u64).to_le_bytes());
    bytes[sh2 + 0x20..sh2 + 0x28].copy_from_slice(&32_u64.to_le_bytes());
    bytes
}

#[test]
fn parses_minimal_elf64_debug_section_and_location() {
    let bytes = minimal_elf();
    let parsed = parse_elf(&bytes).unwrap();
    let debug = parsed
        .sections
        .iter()
        .find(|section| section.name == ".debug_str")
        .unwrap();
    assert!(contains_bytes(section_bytes(&bytes, debug).unwrap(), b"/workspace"));
}

#[test]
fn finds_markers_in_debug_sections_only() {
    let markers = vec![
        EmbeddedMarker {
            variable: "build_path".into(),
            value: "/workspace".into(),
        },
        EmbeddedMarker {
            variable: "hostname".into(),
            value: "elsewhere".into(),
        },
    ];
    let found = scan_debug_markers(&minimal_elf(), &markers);
    assert_eq!(found.len(), 1);
    assert_eq!(found[0].variable, "build_path");
}

#[test]
fn debug_markers_are_the_located_ones_in_order() {
    let markers: Vec<EmbeddedMarker> = [("z", "/workspace"), ("a", "/workspace"), ("b", ""), ("a", "/workspace")]
        .iter()
        .map(|(variable, value)| EmbeddedMarker {
            variable: variable.to_string(),
            value: value.to_string(),
        })
        .collect();
    let found = scan_debug_markers(&minimal_elf(), &markers);
    let variables: Vec<&str> = found.iter().map(|marker| marker.variable.as_str()).collect();
    assert_eq!(variables, vec!["a", "z"]);
    let located = scan_debug_marker_locations(&minimal_elf(), &markers);
    assert_eq!(located.len(), 2);
    assert!(located.iter().all(|location| location.section == ".debug_str"));
}

#[test]
fn days_count_from_any_year() {
    assert_eq!(days_from_civil(1970, 1, 1), 0);
    assert_eq!(days_from_civil(2000, 3, 1), 11_017);
    assert_eq!(days_from_civil(0, 3, 1), -719_468);
    assert_eq!(days_from_civil(-1, 12, 31), -719_529);
    assert_eq!(days_from_civil(2_000_000, 1, 1), 729_765_472);
}

#[test]
fn short_tar_headers_have_short_names() {
    assert_eq!(tar_name(b"abc"), "");
    let mut header = vec![0_u8; 100];
    header[..3].copy_from_slice(b"abc");
    assert_eq!(tar_name(&header), "abc");
    header.resize(512, 0);
    header[345..348].copy_from_slice(b"dir");
    assert_eq!(tar_name(&header), "dir/abc");
    header[0] = 0xff;
    assert_eq!(tar_name(&header), "dir/\u{fffd}bc");
}

#[test]
fn parses_gnu_build_id_note() {
    let mut note = Vec::new();
    note.extend_from_slice(&4_u32.to_le_bytes());
    note.extend_from_slice(&4_u32.to_le_bytes());
    note.extend_from_slice(&3_u32.to_le_bytes());
    note.extend_from_slice(b"GNU\0");
    note.extend_from_slice(&[0xde, 0xad, 0xbe, 0xef]);
    assert_eq!(
        parse_gnu_build_id(&note, Endian::Little).as_deref(),
        Some("deadbeef")
    );
}

#[test]
fn hashes_detects_and_scans_generic_file() {
    let controlled = ControlledEnvironment {
        hostname: Some("reprobisect-alt-host".to_string()),
        ..ControlledEnvironment::default()
    };
    let states = vec![OutputState::File(b"hello from reprobisect-alt-host".to_vec())];
    let artifacts = collect_artifacts(&vec!["build/out.txt".to_string()], &states, &controlled).unwrap();
    assert_eq!(artifacts.len(), 1);
    assert!(artifacts[0]
        .embedded_markers
        .iter()
        .any(|marker| marker.variable == "hostname"));
    assert_eq!(artifacts[0].sha256, sha256_bytes(b"hello from reprobisect-alt-host"));
    assert_eq!(artifacts[0].detected_type, ArtifactType::Generic);
}

#[test]
fn a_missing_output_is_an_error() {
    let controlled = ControlledEnvironment::default();
    let missing = collect_artifacts(
        &vec!["out".to_string()],
        &vec![OutputState::Missing],
        &controlled,
    );
    assert!(missing.unwrap_err().contains("out"));
    let odd = collect_artifacts(
        &vec!["out".to_string()],
        &vec![OutputState::NotAFile],
        &controlled,
    );
    assert!(odd.unwrap_err().contains("out"));
}

#[test]
fn digests_are_those_of_sha_256() {
    assert_eq!(
        sha256_bytes(b"abc"),
        "ba7816bf8f01cfea414140de5dae2223b00361a396177a9cb410ff61f20015ad"
    );
}

fn archive_summary(names: &[&str], format: &str) -> ArchiveMetadataSummary {
    ArchiveMetadataSummary {
        format: format.to_string(),
        member_count: names.len(),
        members: names
            .iter()
            .enumerate()
            .map(|(index, name)| ArchiveMemberMetadata {
                index,
                name: (*name).to_string(),
                size: 0,
                mtime: None,
                uid: None,
                gid: None,
                mode: None,
            })
            .collect(),
        truncated: false,
        container_mtime: None,
    }
}

#[test]
fn refines_zip_family_artifact_types_structurally() {
    let jar = archive_summary(&["META-INF/MANIFEST.MF", "demo/Main.class"], "zip");
    assert_eq!(
        refine_archive_type("artifact.bin", ArtifactType::Zip, &jar),
        ArtifactType::Jar
    );

    let wheel = archive_summary(
        &[
            "demo/__init__.py",
            "demo-1.0.dist-info/WHEEL",
            "demo-1.0.dist-info/METADATA",
        ],
        "zip",
    );
    assert_eq!(
        refine_archive_type("artifact.bin", ArtifactType::Zip, &wheel),
        ArtifactType::PythonWheel
    );
}

#[test]
fn refines_deb_and_oci_artifact_types_structurally() {
    let deb = archive_summary(&["debian-binary", "control.tar.xz", "data.tar.xz"], "ar");
    assert_eq!(
        refine_archive_type("artifact.bin", ArtifactType::Ar, &deb),
        ArtifactType::Deb
    );

    let oci = archive_summary(&["oci-layout", "index.json", "blobs/sha256/abc"], "tar");
    assert_eq!(
        refine_archive_type("artifact.bin", ArtifactType::Tar, &oci),
        ArtifactType::OciImage
    );
}

#[test]
fn detects_pe_macho_wasm_and_extension_typed_packages() {
    let mut pe = vec![0_u8; 128];
    pe[..2].copy_from_slice(b"MZ");
    pe[0x3c..0x40].copy_from_slice(&(64_u32).to_le_bytes());
    pe[64..68].copy_from_slice(b"PE\0\0");
    assert_eq!(detect_type("demo.exe", &pe), ArtifactType::PeCoff);
    assert_eq!(
        detect_type("demo.macho", b"\xcf\xfa\xed\xfe\0\0\0\0"),
        ArtifactType::MachO
    );
    assert_eq!(detect_type("demo.wasm", b"\0asm\x01\0\0\0"), ArtifactType::Wasm);
    assert_eq!(detect_type("demo.jar", b"PK\x03\x04"), ArtifactType::Jar);
    assert_eq!(detect_type("demo.whl", b"PK\x03\x04"), ArtifactType::PythonWheel);
    assert_eq!(detect_type("demo.deb", b"!<arch>\n"), ArtifactType::Deb);
}

#[test]
fn source_date_epoch_adds_human_readable_marker() {
    let mut controlled = ControlledEnvironment::default();
    controlled
        .environment
        .insert("SOURCE_DATE_EPOCH".to_string(), "946684800".to_string());
    let markers = marker_candidates(&controlled);
    assert!(markers.iter().any(|marker| marker.value == "Jan  1 2000"));
}

#[test]
fn semantic_compare_reports_attribute_change() {
    let mut left = StringMap::new();
    left.insert("coff_timestamp".to_string(), "1".to_string());
    let mut right = StringMap::new();
    right.insert("coff_timestamp".to_string(), "2".to_string());
    let differences = semantic::compare(&summary("pe_coff", left), &summary("pe_coff", right));
    assert_eq!(differences.len(), 1);
    assert_eq!(differences[0].field, "coff_timestamp");
}

#[test]
fn parses_minimal_pe_timestamp() {
    let mut bytes = vec![0_u8; 128];
    bytes[..2].copy_from_slice(b"MZ");
    bytes[0x3c..0x40].copy_from_slice(&64_u32.to_le_bytes());
    bytes[64..68].copy_from_slice(b"PE\0\0");
    bytes[72..76].copy_from_slice(&1234_u32.to_le_bytes());
    let summary = inspect_pe_coff(&bytes).unwrap();
    assert_eq!(
        summary.attributes.get("coff_timestamp"),
        Some(&"1234".to_string())
    );
}

#[test]
fn parses_minimal_wasm_version() {
    let summary = inspect_wasm(b"\0asm\x01\0\0\0").unwrap();
    assert_eq!(summary.attributes.get("version"), Some(&"1".to_string()));
    assert_eq!(summary.attributes.get("section_count"), Some(&"0".to_string()));
}

#[test]
fn reads_variable_length_numbers() {
    assert_eq!(read_uleb128(&[0xe5, 0x8e, 0x26]), Some((624485, 3)));
    assert_eq!(read_uleb128(&[0x80]), None);
}

#[test]
fn reads_header_fields() {
    let fields = parse_header_fields(b"Name: demo\nVersion: 1\n");
    assert_eq!(fields.get("name"), Some(&"demo".to_string()));
    assert_eq!(fields.get("version"), Some(&"1".to_string()));
}

#[test]
fn a_short_file_is_no_macho_binary() {
    assert!(inspect_macho(b"\xcf\xfa\xed\xfe").is_none());
}

#[test]
fn a_plain_file_has_no_archive_metadata() {
    let record = describe_artifact("demo.txt", b"plain text", &vec![]);
    assert_eq!(record.size_bytes, 10);
    assert!(record.archive_metadata.is_none());
    assert!(record.semantic_metadata.is_none());
    assert!(compare_runs(&vec![]).is_empty());
}
