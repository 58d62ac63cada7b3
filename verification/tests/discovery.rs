use reprobisect::init::{adopt_discovered, generic_plan};
use reprobisect::model::RunnerBackend;
use reprobisect::output_discovery::{
    candidates_from_snapshots, classify_candidate, discover_from_snapshots, is_overdue, keep_tail,
    probe_failure, probe_problem, run_arguments, should_descend, tail_text, CandidateConfidence,
    FileStamp, Snapshot, FAILURE_OUTPUT_BYTES, MAX_CANDIDATES, MAX_SCAN_FILES, PROBE_SECONDS,
};

fn stamp(size: u64, mode: u32) -> FileStamp {
    FileStamp {
        size_bytes: size,
        modified_nanos: Some(1),
        mode,
    }
}

#[test]
fn log_tail_capture_is_bounded() {
    let mut bytes = vec![b'A'; FAILURE_OUTPUT_BYTES + 1024];
    bytes.extend_from_slice(b"FINAL");
    let mut retained = Vec::new();
    for chunk in bytes.chunks(16 * 1024) {
        keep_tail(&mut retained, chunk);
    }
    let captured = tail_text(&retained);

    assert!(captured.len() <= FAILURE_OUTPUT_BYTES);
    assert!(captured.ends_with("FINAL"));
}

#[test]
fn the_kept_tail_is_the_same_for_all_pieces() {
    let bytes: Vec<u8> = (0..40_000_u32).map(|i| b'a' + (i % 26) as u8).collect();
    let mut whole = Vec::new();
    keep_tail(&mut whole, &bytes);
    let mut pieces = Vec::new();
    for chunk in bytes.chunks(777) {
        keep_tail(&mut pieces, chunk);
    }
    assert_eq!(whole, pieces);
    assert_eq!(whole.len(), FAILURE_OUTPUT_BYTES);
    assert_eq!(whole, bytes[bytes.len() - FAILURE_OUTPUT_BYTES..].to_vec());
}

#[test]
fn ranks_final_binary_and_filters_object_file() {
    let before = Snapshot::new();
    let mut after = Snapshot::new();
    assert!(after.record("target/release/app".to_string(), stamp(8, 0o100755)));
    assert!(after.record("target/release/deps/app.o".to_string(), stamp(10, 0o100644)));
    let contents = vec![
        Some(b"\x7fELFdemo".to_vec()),
        Some(b"\x7fELFobject".to_vec()),
    ];
    let (candidates, changed) = candidates_from_snapshots(&before, &after, &contents);

    assert_eq!(changed, 2);
    assert_eq!(candidates.len(), 1);
    assert_eq!(candidates[0].path, "target/release/app");
    assert_eq!(candidates[0].confidence, CandidateConfidence::High);
}

#[test]
fn recognizes_package_candidate() {
    let before = Snapshot::new();
    let mut after = Snapshot::new();
    after.record("dist/demo.whl".to_string(), stamp(8, 0o100644));
    let (candidates, changed) =
        candidates_from_snapshots(&before, &after, &vec![Some(b"PK\x03\x04demo".to_vec())]);

    assert_eq!(changed, 1);
    assert_eq!(candidates.len(), 1);
    assert_eq!(candidates[0].path, "dist/demo.whl");
    assert_eq!(candidates[0].kind, "Python wheel");
    assert_eq!(candidates[0].confidence, CandidateConfidence::High);
}

#[test]
fn files_that_did_not_change_are_no_candidates() {
    let mut before = Snapshot::new();
    before.record("bin/tool".to_string(), stamp(8, 0o755));
    let mut after = Snapshot::new();
    after.record("bin/tool".to_string(), stamp(8, 0o755));
    let (candidates, changed) =
        candidates_from_snapshots(&before, &after, &vec![Some(b"\x7fELFdemo".to_vec())]);
    assert_eq!(changed, 0);
    assert!(candidates.is_empty());
}

#[test]
fn the_best_candidates_come_first_and_are_bounded() {
    let before = Snapshot::new();
    let mut after = Snapshot::new();
    let mut contents = Vec::new();
    after.record("run".to_string(), stamp(4, 0o755));
    contents.push(Some(b"data".to_vec()));
    for i in 0..MAX_CANDIDATES + 2 {
        after.record(format!("dist/b{:02}.whl", i), stamp(4, 0o644));
        contents.push(Some(b"PK\x03\x04".to_vec()));
    }
    let result = discover_from_snapshots(&before, &after, &contents);
    assert_eq!(result.candidates.len(), MAX_CANDIDATES);
    assert_eq!(result.candidates[0].path, "dist/b00.whl");
    assert_eq!(result.candidates[11].path, "dist/b11.whl");
    assert_eq!(result.changed_file_count, MAX_CANDIDATES + 3);
    assert!(!result.scan_truncated);
}

#[test]
fn ratings_follow_place_and_kind() {
    let none: Option<Vec<u8>> = None;
    assert!(classify_candidate("empty.exe", &stamp(0, 0o755), &none).is_none());
    let tool = classify_candidate("tool", &stamp(4, 0o755), &none).unwrap();
    assert_eq!(tool.kind, "executable file");
    assert_eq!(tool.confidence, CandidateConfidence::Medium);
    assert_eq!(tool.score, 72);
    assert!(classify_candidate("run.sh", &stamp(4, 0o755), &none).is_none());
    assert!(classify_candidate("x/CMakeFiles/tool", &stamp(4, 0o755), &none).is_none());
    let library = classify_candidate("out/libx.so.1", &stamp(4, 0o644), &none).unwrap();
    assert_eq!(library.kind, "shared library");
    assert_eq!(library.score, 92);
    let hidden = classify_candidate(".pkg.rpm", &stamp(4, 0o644), &none).unwrap();
    assert_eq!(hidden.score, 68);
    assert_eq!(hidden.confidence.label(), "low");
}

#[test]
fn scans_skip_directories_without_outputs() {
    assert!(should_descend(0, true, ".git"));
    assert!(!should_descend(1, true, ".git"));
    assert!(!should_descend(2, true, "node_modules"));
    assert!(should_descend(1, false, ".git"));
    assert!(should_descend(1, true, "src"));
}

#[test]
fn probe_arguments_mount_the_workspace() {
    let arguments = run_arguments(
        "/tmp/w",
        &Some("1000:1000".to_string()),
        "gcc:14",
        &vec!["make".to_string()],
    );
    assert_eq!(arguments[3], "/tmp/w:/workspace");
    assert_eq!(arguments.len(), 20);
    assert_eq!(
        arguments[16..].to_vec(),
        vec!["--user", "1000:1000", "gcc:14", "make"]
    );
    assert_eq!(
        probe_problem(&vec![]).as_deref(),
        Some("cannot probe outputs with an empty build command")
    );
    assert_eq!(probe_problem(&vec!["make".to_string()]), None);
    assert_eq!(
        probe_failure("exit status: 2", "", "oops"),
        "temporary discovery build failed with status exit status: 2\nstderr (tail):\noops"
    );
}

#[test]
fn only_sure_candidates_replace_the_outputs() {
    let before = Snapshot::new();
    let mut after = Snapshot::new();
    after.record("dist/demo.whl".to_string(), stamp(8, 0o644));
    after.record("tool".to_string(), stamp(8, 0o755));
    let result = discover_from_snapshots(
        &before,
        &after,
        &vec![Some(b"PK\x03\x04".to_vec()), Some(b"data".to_vec())],
    );
    assert_eq!(result.candidates.len(), 2);
    let mut plan = generic_plan();
    adopt_discovered(&mut plan, &result);
    assert_eq!(plan.outputs, vec!["dist/demo.whl".to_string()]);

    let mut doubtful = Snapshot::new();
    doubtful.record("tool".to_string(), stamp(8, 0o755));
    let result = discover_from_snapshots(&before, &doubtful, &vec![None]);
    let mut plan = generic_plan();
    adopt_discovered(&mut plan, &result);
    assert_eq!(plan.outputs, vec!["build/app".to_string()]);
    assert_eq!(RunnerBackend::Podman.executable(), "podman");
}

#[test]
fn a_probe_is_stopped_after_its_time() {
    assert_eq!(PROBE_SECONDS, 600);
    assert!(!is_overdue(0));
    assert!(!is_overdue(600));
    assert!(is_overdue(601));
}

#[test]
fn a_scan_ends_at_its_limit() {
    let mut snapshot = Snapshot::new();
    for n in 0..MAX_SCAN_FILES {
        assert!(snapshot.has_room());
        snapshot.record(n.to_string(), stamp(1, 0o644));
    }
    assert!(!snapshot.truncated);
    assert!(!snapshot.has_room());
    assert!(snapshot.truncated);
    assert!(!snapshot.record("more".to_string(), stamp(1, 0o644)));
    assert_eq!(snapshot.files.len(), MAX_SCAN_FILES);
}
