use code_intel_kernel::repo_graph::config::ConfigValue;
use code_intel_kernel::repo_graph::inspect::inspect_snapshot;
use code_intel_kernel::repo_graph::manifest_parse::parsed_document;
use code_intel_kernel::repo_graph::snapshot::{DocumentFormat, FileText, ParsedDocument, RepoSnapshot, SnapshotEntry};
use code_intel_kernel::repo_graph::types::{DetectionCategory, RelationshipKind, RepoCommandKind, RepoInspection};

fn parsed(format: DocumentFormat, contents: &str) -> ParsedDocument {
    parsed_document(format, Ok(contents.to_string()))
}

fn manifest(path: &str, format: DocumentFormat, contents: &str) -> SnapshotEntry {
    SnapshotEntry { path: path.to_string(), is_dir: false, text: FileText::NotRead, document: parsed(format, contents) }
}

fn file(path: &str) -> SnapshotEntry {
    SnapshotEntry { path: path.to_string(), is_dir: false, text: FileText::NotRead, document: ParsedDocument::NotParsed }
}

fn dir(path: &str) -> SnapshotEntry {
    SnapshotEntry { path: path.to_string(), is_dir: true, text: FileText::NotRead, document: ParsedDocument::NotParsed }
}

fn lines(path: &str, contents: &str) -> SnapshotEntry {
    SnapshotEntry { path: path.to_string(), is_dir: false, text: FileText::Text(contents.to_string()), document: ParsedDocument::NotParsed }
}

fn inspect(root: &str, entries: Vec<SnapshotEntry>) -> RepoInspection {
    inspect_snapshot(&RepoSnapshot { root: root.to_string(), entries })
}

fn document(format: DocumentFormat, contents: &str) -> ConfigValue {
    match parsed(format, contents) {
        ParsedDocument::Parsed(value) => value,
        _ => panic!("the document must parse"),
    }
}

fn text_at<'a>(value: &'a ConfigValue, keys: &[&str]) -> Option<&'a str> {
    let mut current = value;
    for key in keys {
        let ConfigValue::Table(entries) = current else { return None };
        current = &entries.iter().rev().find(|(k, _)| k == key)?.1;
    }
    match current {
        ConfigValue::Text(t) => Some(t.as_str()),
        _ => None,
    }
}

#[test]
fn toml_document_parses_into_plain_values() {
    let value = document(DocumentFormat::Toml, "[package]\nname = \"demo\"\nversion = \"0.1.0\"\nedition = 2021\n");
    assert_eq!(text_at(&value, &["package", "name"]), Some("demo"));
    assert_eq!(text_at(&value, &["package", "version"]), Some("0.1.0"));
    let ConfigValue::Table(root) = &value else { panic!("a TOML document is a table") };
    let ConfigValue::Table(package) = &root[0].1 else { panic!("package is a table") };
    assert!(package.iter().any(|(k, v)| k == "edition" && matches!(v, ConfigValue::Other)));
}

#[test]
fn json_document_parses_into_plain_values() {
    let value = document(DocumentFormat::Json, "{\"name\": \"web\", \"workspaces\": [\"a\", \"b\"], \"private\": true}");
    assert_eq!(text_at(&value, &["name"]), Some("web"));
    let ConfigValue::Table(entries) = &value else { panic!("a JSON object is a table") };
    let workspaces = &entries.iter().find(|(k, _)| k == "workspaces").unwrap().1;
    let ConfigValue::List(items) = workspaces else { panic!("workspaces is a list") };
    let names: Vec<&str> = items.iter().filter_map(|v| match v {
        ConfigValue::Text(t) => Some(t.as_str()),
        _ => None,
    }).collect();
    assert_eq!(names, vec!["a", "b"]);
    assert!(entries.iter().any(|(k, v)| k == "private" && matches!(v, ConfigValue::Other)));
}

#[test]
fn malformed_documents_keep_the_parser_message() {
    match parsed(DocumentFormat::Toml, "[package\nname = ") {
        ParsedDocument::Malformed(message) => assert!(!message.is_empty()),
        _ => panic!("malformed TOML must not parse"),
    }
    match parsed(DocumentFormat::Json, "{ not json") {
        ParsedDocument::Malformed(message) => assert!(!message.is_empty()),
        _ => panic!("malformed JSON must not parse"),
    }
}

#[test]
fn unreadable_documents_keep_the_read_error() {
    match parsed_document(DocumentFormat::Toml, Err("permission denied".to_string())) {
        ParsedDocument::Unreadable(message) => assert_eq!(message, "permission denied"),
        _ => panic!("a read failure stays a read failure"),
    }
}

#[test]
fn parsed_cargo_manifest_names_the_package_component() {
    let graph = inspect(
        "/work/minimal-cargo",
        vec![manifest("Cargo.toml", DocumentFormat::Toml, "[package]\nname = \"minimal-cargo\"\n"), dir("src"), file("src/lib.rs")],
    );
    let package = graph.components.iter().find(|c| c.id == "component-rust-package").unwrap();
    assert_eq!(package.name, "minimal-cargo");
    assert_eq!(package.kind, "rust_crate");
    assert_eq!(package.path, ".");
    assert_eq!(package.file_patterns, vec!["Cargo.toml", "Cargo.lock", "src/**", "tests/**"]);
    let check = graph.commands.iter().find(|c| c.command == "cargo check").unwrap();
    assert_eq!(check.kind, RepoCommandKind::Check);
    assert_eq!(check.scope, ".");
    assert_eq!(check.scope_ref.as_deref(), Some("repo"));
}

#[test]
fn malformed_manifest_message_names_the_path_under_the_root() {
    let graph = inspect("/work/broken", vec![manifest("package.json", DocumentFormat::Json, "{ not json")]);
    let warning = graph.warnings.iter().find(|w| w.category == DetectionCategory::MalformedManifest).unwrap();
    assert!(warning.message.starts_with("Failed to parse /work/broken/package.json: "));
    assert_eq!(warning.path.as_deref(), Some("package.json"));
    assert!(graph.components.is_empty());
    assert!(graph.commands.is_empty());
    assert!(graph.tests.is_empty());
}

#[test]
fn workspace_path_dependencies_become_depends_on_relationships() {
    let graph = inspect(
        "/work/ws",
        vec![
            manifest("Cargo.toml", DocumentFormat::Toml, "[workspace]\nmembers = [\"crates/app\", \"crates/core\"]\n"),
            dir("crates"),
            dir("crates/app"),
            manifest(
                "crates/app/Cargo.toml",
                DocumentFormat::Toml,
                "[package]\nname = \"app\"\n\n[dependencies]\ncore = { path = \"../core\" }\nserde = \"1\"\n",
            ),
            dir("crates/core"),
            manifest("crates/core/Cargo.toml", DocumentFormat::Toml, "[package]\nname = \"core\"\n"),
        ],
    );
    let app = graph.components.iter().find(|c| c.name == "app").unwrap();
    assert_eq!(app.id, "component-rust-crate-app");
    assert_eq!(app.path, "crates/app");
    assert_eq!(app.file_patterns, vec!["crates/app/Cargo.toml", "crates/app/src/**", "crates/app/tests/**"]);
    let depends = graph
        .relationships
        .iter()
        .find(|r| r.kind == RelationshipKind::DependsOn && r.src_id == "component-rust-crate-app")
        .unwrap();
    assert_eq!(depends.dst_id, "component-rust-crate-core");
    let evidence = graph.evidence.iter().find(|e| e.id == depends.evidence_id).unwrap();
    assert_eq!(evidence.field.as_deref(), Some("dependencies.core"));
    assert_eq!(evidence.path, "crates/app/Cargo.toml");
    assert!(graph
        .relationships
        .iter()
        .any(|r| r.kind == RelationshipKind::BelongsToWorkspace && r.src_id == "component-rust-crate-core" && r.dst_id == "workspace-cargo"));
    assert!(!graph.relationships.iter().any(|r| r.kind == RelationshipKind::DependsOn && r.src_id == "component-rust-crate-core"));
}

#[test]
fn workspace_member_under_a_build_directory_is_found() {
    let graph = inspect(
        "/work/ws",
        vec![
            manifest("Cargo.toml", DocumentFormat::Toml, "[workspace]\nmembers = [\"build/tool\"]\n"),
            dir("build"),
            dir("build/tool"),
            manifest("build/tool/Cargo.toml", DocumentFormat::Toml, "[package]\nname = \"tool\"\n"),
        ],
    );
    assert!(graph.components.iter().any(|c| c.id == "component-rust-crate-tool" && c.path == "build/tool"));
}

#[test]
fn go_test_files_in_skipped_directories_do_not_count() {
    let graph = inspect(
        "/work/go",
        vec![lines("go.mod", "module example.com/skip\n"), dir("vendor"), dir("build"), file("build/gen_test.go"), file("main.go")],
    );
    let test = graph.commands.iter().find(|c| c.command == "go test ./...").unwrap();
    assert_eq!(test.confidence, 85);
    assert!(!graph.detected_files.iter().any(|f| f.path == "build/gen_test.go"));
}

#[test]
fn python_without_pytest_evidence_adds_no_command_or_test() {
    let graph = inspect(
        "/work/py",
        vec![manifest("pyproject.toml", DocumentFormat::Toml, "[project]\nname = \"plain\"\n"), dir("tests"), file("tests/test_x.py")],
    );
    assert!(graph.commands.is_empty());
    assert!(graph.tests.is_empty());
    let project = graph.components.iter().find(|c| c.id == "component-python-project").unwrap();
    assert_eq!(project.name, "plain");
    assert_eq!(project.kind, "python_project");
    assert_eq!(project.file_patterns, vec!["pyproject.toml", "requirements.txt", "src/**", "tests/**"]);
}
