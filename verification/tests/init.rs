use reprobisect::init::{
    can_detect, creation_lines, creation_problem, detect_project, display_command, generic_plan,
    is_go_source, marker_names, render_config, render_config_for, DetectionConfidence, ProjectFiles,
};
use reprobisect::model::RunnerBackend;
use reprobisect::toml_tree::{entry, parse_toml, string_of_toml, Toml};

fn project(files: &[(&str, &str)]) -> ProjectFiles {
    ProjectFiles {
        files: files
            .iter()
            .map(|(name, text)| (name.to_string(), Some(text.to_string())))
            .collect(),
        go_sources: vec![],
    }
}

#[test]
fn cargo_detection_uses_manifest_binary_and_lockfile() {
    let files = project(&[
        (
            "Cargo.toml",
            "[package]\nname = \"widget-cli\"\nversion = \"0.1.0\"\nrust-version = \"1.86\"\n",
        ),
        ("Cargo.lock", "# lock\n"),
    ]);
    let plan = detect_project(&files);

    assert_eq!(plan.detected_project, "Cargo");
    assert_eq!(plan.confidence, DetectionConfidence::High);
    assert_eq!(plan.image, "rust:1.86");
    assert_eq!(plan.command, vec!["cargo", "build", "--release", "--locked"]);
    assert_eq!(plan.outputs, vec!["target/release/widget-cli".to_string()]);
}

#[test]
fn cargo_detection_prefers_a_declared_binary() {
    let files = project(&[(
        "Cargo.toml",
        "[package]\nname = \"lib\"\n[[bin]]\npath = \"x.rs\"\n[[bin]]\nname = \"tool\"\n",
    )]);
    let plan = detect_project(&files);
    assert_eq!(plan.outputs, vec!["target/release/tool".to_string()]);
    assert_eq!(plan.image, "rust:1.85");
    assert_eq!(plan.command, vec!["cargo", "build", "--release"]);

    let broken = detect_project(&project(&[("Cargo.toml", "[package")]));
    assert_eq!(broken.outputs, vec!["target/release/app".to_string()]);
    assert_eq!(broken.confidence, DetectionConfidence::Medium);
}

#[test]
fn cmake_detection_extracts_first_executable() {
    let files = project(&[(
        "CMakeLists.txt",
        "cmake_minimum_required(VERSION 3.20)\nadd_executable(sample src/main.cpp)\n",
    )]);
    let plan = detect_project(&files);

    assert_eq!(plan.detected_project, "CMake");
    assert_eq!(plan.confidence, DetectionConfidence::High);
    assert_eq!(plan.outputs, vec!["build/sample".to_string()]);
}

#[test]
fn pnpm_detection_uses_stable_package_output() {
    let files = project(&[
        (
            "package.json",
            r#"{"name":"demo","version":"1.0.0","scripts":{"build":"tsc"}}"#,
        ),
        ("pnpm-lock.yaml", "lockfileVersion: '9.0'\n"),
    ]);
    let plan = detect_project(&files);

    assert_eq!(plan.detected_project, "Node.js / pnpm");
    assert_eq!(plan.outputs, vec!["build/reprobisect-package.tgz".to_string()]);
    assert!(plan.command[2].contains("pnpm run build"));
}

#[test]
fn npm_detection_without_a_build_script() {
    let plan = detect_project(&project(&[("package.json", "{\"name\":\"demo\"}")]));
    assert_eq!(plan.detected_project, "Node.js / npm");
    assert!(plan.command[2].contains(" && npm install && npm pack"));
    let locked = detect_project(&project(&[("package.json", "{}"), ("package-lock.json", "{}")]));
    assert!(locked.command[2].contains(" && npm ci && npm pack"));
}

#[test]
fn ambiguity_is_explicit() {
    let files = project(&[
        ("Cargo.toml", "[package]\nname = \"demo\"\nversion = \"0.1.0\"\n"),
        ("Makefile", "all:\n\tcargo build\n"),
    ]);
    let plan = detect_project(&files);

    assert_eq!(plan.detected_project, "Cargo");
    assert_eq!(plan.confidence, DetectionConfidence::Medium);
    assert!(plan
        .notes
        .iter()
        .any(|note| note.contains("multiple build-system markers")));
    assert!(plan.notes[1].ends_with("also found Make"));
}

fn text<'a>(document: &'a Toml, table: &str, key: &str) -> Option<&'a String> {
    string_of_toml(entry(entry(Some(document), table), key))
}

#[test]
fn fallback_config_is_parseable() {
    let rendered = render_config(&generic_plan());
    let parsed = parse_toml(&rendered).expect("parse generated config");

    assert_eq!(text(&parsed, "build", "image"), Some(&"gcc:14".to_string()));
    assert_eq!(
        entry(entry(Some(&parsed), "build"), "outputs"),
        Some(&Toml::List(vec![Toml::Text("build/app".to_string())]))
    );
    assert_eq!(
        entry(entry(Some(&parsed), "experiments"), "control_runs"),
        Some(&Toml::Integer(2))
    );
    assert_eq!(text(&parsed, "build", "runner"), Some(&"docker".to_string()));
    assert_eq!(
        entry(entry(Some(&parsed), "experiments"), "stochastic_alpha"),
        Some(&Toml::Float("0.05".to_string()))
    );
}

#[test]
fn rendered_values_read_back() {
    let list = |items: &[&str]| Toml::List(items.iter().map(|i| Toml::Text(i.to_string())).collect());
    let mut plan = generic_plan();
    plan.image = "quote\" back\\slash é".to_string();
    plan.command = vec!["sh".to_string(), "a\", \"b".to_string(), String::new()];
    plan.outputs = vec!["out, put".to_string(), "[x]".to_string()];
    let parsed = parse_toml(&render_config(&plan)).unwrap();
    let build = entry(Some(&parsed), "build");
    assert_eq!(entry(build, "image"), Some(&Toml::Text(plan.image.clone())));
    assert_eq!(entry(build, "command"), Some(&list(&["sh", "a\", \"b", ""])));
    assert_eq!(entry(build, "outputs"), Some(&list(&["out, put", "[x]"])));
    assert_eq!(entry(build, "timeout_seconds"), Some(&Toml::Integer(600)));
    let mut other = plan.clone();
    other.command = vec!["sh".to_string(), "a".to_string(), "b".to_string(), String::new()];
    assert_ne!(render_config(&plan), render_config(&other));
    other = plan.clone();
    other.outputs = vec!["out".to_string(), "put".to_string(), "[x]".to_string()];
    assert_ne!(render_config(&plan), render_config(&other));
}

#[test]
fn a_config_keeps_text_with_quotes_and_control_characters() {
    let mut plan = generic_plan();
    plan.image = "a\"b\\c\n\t\u{1}\u{7f}é".to_string();
    let rendered = render_config_for(&plan, RunnerBackend::Podman);
    assert!(rendered.contains("image = \"a\\\"b\\\\c\\n\\t\\u0001\u{7f}é\"\n"));
    assert!(rendered.contains("runner = \"podman\""));
    plan.notes.push("two\nlines".to_string());
    assert!(render_config(&plan).contains("# Note: two lines\n"));
}

#[test]
fn other_build_systems_are_recognized() {
    let go = ProjectFiles {
        files: vec![("go.mod".to_string(), Some("module x\n\ngo 1.22.3\n".to_string()))],
        go_sources: vec!["// tool\npackage main\n".to_string()],
    };
    let plan = detect_project(&go);
    assert_eq!(plan.image, "golang:1.22.3");
    assert_eq!(plan.outputs, vec!["build/reprobisect-app".to_string()]);

    let maven = detect_project(&project(&[(
        "pom.xml",
        "<project><artifactId> demo </artifactId><version>1.0</version></project>",
    )]));
    assert_eq!(maven.outputs, vec!["target/demo-1.0.jar".to_string()]);
    assert_eq!(maven.confidence, DetectionConfidence::Medium);

    let meson = detect_project(&project(&[("meson.build", "executable( 'my tool', 'a.c')\n")]));
    assert_eq!(meson.outputs, vec!["build/my_tool".to_string()]);

    let autotools = detect_project(&project(&[
        ("configure.ac", ""),
        ("Makefile.am", "bin_PROGRAMS = hello world\n"),
    ]));
    assert_eq!(autotools.outputs, vec!["hello".to_string()]);
    assert_eq!(autotools.command[2], "autoreconf -fi && ./configure && make -j1");

    let make = detect_project(&project(&[(
        "Makefile",
        "# comment\n.PHONY: all\nall: build/tool\nclean:\n\trm -f x\n",
    )]));
    assert_eq!(make.outputs, vec!["build_tool".to_string()]);

    let gradle = detect_project(&project(&[("gradlew", "")]));
    assert_eq!(gradle.command[2], "./gradlew --no-daemon build");
    let python = detect_project(&project(&[("setup.py", "")]));
    assert_eq!(python.image, "python:3.12");
    let nothing = detect_project(&project(&[]));
    assert_eq!(nothing.detected_project, "generic / unknown");
    assert_eq!(nothing.confidence.label(), "low");
}

#[test]
fn bazel_targets_are_read_within_a_window() {
    let files = project(&[("BUILD.bazel", "cc_binary(\n    name = \"tool\",\n)\n")]);
    assert!(can_detect(&files));
    let plan = detect_project(&files);
    assert_eq!(plan.outputs, vec!["bazel-bin/tool".to_string()]);
    assert_eq!(plan.command[2], "//:tool");

    let far = format!("cc_binary({} name = \"tool\")", "x".repeat(1100));
    let plan = detect_project(&project(&[("BUILD", &far)]));
    assert_eq!(plan.outputs, vec!["bazel-bin/app".to_string()]);

    let split = format!("cc_binary({}é name = \"tool\")", "x".repeat(1013));
    assert!(!can_detect(&project(&[("BUILD", &split)])));
}

#[test]
fn markers_and_messages() {
    assert!(marker_names().contains(&"Cargo.toml".to_string()));
    assert!(is_go_source("main.go"));
    assert!(!is_go_source("go"));
    assert_eq!(
        creation_problem("/p/.reprobisect.toml", true, false).as_deref(),
        Some("/p/.reprobisect.toml already exists; pass --force to overwrite it")
    );
    assert_eq!(creation_problem("/p/.reprobisect.toml", true, true), None);
    assert_eq!(
        display_command(&vec!["sh".to_string(), "-lc".to_string(), "make all".to_string()]),
        "sh -lc \"make all\""
    );
    let lines = creation_lines("/p/.reprobisect.toml", &generic_plan());
    assert_eq!(lines[0], "created /p/.reprobisect.toml");
    assert_eq!(lines[1], "detected project: generic / unknown (low confidence)");
    assert_eq!(lines[3], "command: sh -lc make");
    assert_eq!(lines[4], "likely output: build/app");
}
