use code_intel_kernel::cli::{
    command_exit_code, evaluation_exit_code, first_positional_arg, parse_changed_files, parse_command,
    parse_line_range, parse_profile, parse_source_context_args, parse_source_evidence_args, parse_usize,
    split_changed_files, strip_prefix_text, CliCommand,
};
use code_intel_kernel::kernel::KernelProfile;
use code_intel_kernel::source_context::{LineRange, SourceContextSelector};

fn args(items: &[&str]) -> Vec<String> {
    items.iter().map(|s| s.to_string()).collect()
}

#[test]
fn parse_usize_accepts_digits_and_a_plus_sign() {
    assert_eq!(parse_usize("42"), Some(42));
    assert_eq!(parse_usize("+7"), Some(7));
    assert_eq!(parse_usize("007"), Some(7));
    assert_eq!(parse_usize(""), None);
    assert_eq!(parse_usize("+"), None);
    assert_eq!(parse_usize("-1"), None);
    assert_eq!(parse_usize("1a"), None);
    assert_eq!(parse_usize("99999999999999999999999"), None);
    assert_eq!(parse_usize(&usize::MAX.to_string()), Some(usize::MAX));
}

#[test]
fn parse_line_range_splits_at_the_first_colon() {
    assert_eq!(parse_line_range("1:80"), Some(LineRange { start_line: 1, end_line: 80 }));
    assert_eq!(parse_line_range(" 3 : 9 "), Some(LineRange { start_line: 3, end_line: 9 }));
    assert_eq!(parse_line_range("3"), None);
    assert_eq!(parse_line_range("3:4:5"), None);
    assert_eq!(parse_line_range("a:4"), None);
}

#[test]
fn split_changed_files_trims_and_drops_blanks() {
    assert_eq!(split_changed_files("src/main.rs, Cargo.toml,,  "), args(&["src/main.rs", "Cargo.toml"]));
    assert_eq!(split_changed_files(""), Vec::<String>::new());
}

#[test]
fn strip_prefix_text_gives_the_rest() {
    assert_eq!(strip_prefix_text("--repo=x", "--repo="), Some("x".to_string()));
    assert_eq!(strip_prefix_text("--rep", "--repo="), None);
}

#[test]
fn parse_changed_files_reads_every_form() {
    let parsed = parse_changed_files(&args(&["--json", "a.rs,b.rs", "--changed-files", "c.rs", "--changed-files=d.rs, e.rs"]));
    assert_eq!(parsed, args(&["a.rs", "b.rs", "c.rs", "d.rs", "e.rs"]));
    assert_eq!(parse_changed_files(&args(&["x.rs", "--changed-files"])), args(&["x.rs"]));
}

#[test]
fn parse_source_evidence_args_takes_repo_and_first_query() {
    let (repo, query) = parse_source_evidence_args(&args(&["parse config", "--repo", "fixture", "other"]));
    assert_eq!(repo, "fixture");
    assert_eq!(query, "parse config");
    let (repo, query) = parse_source_evidence_args(&args(&["--json", "--repo=r"]));
    assert_eq!(repo, "r");
    assert_eq!(query, "");
}

#[test]
fn parse_source_context_args_builds_selectors() {
    let (repo, selectors) = parse_source_context_args(&args(&[
        "--symbol-id", "symbol-a", "--file", "src/lib.rs", "--lines=2:4", "--repo", "r", "--symbol-id=symbol-b",
    ]));
    assert_eq!(repo, "r");
    assert_eq!(
        selectors,
        vec![
            SourceContextSelector::SymbolId { symbol_id: "symbol-a".to_string() },
            SourceContextSelector::SymbolId { symbol_id: "symbol-b".to_string() },
            SourceContextSelector::File {
                path: "src/lib.rs".to_string(),
                line_range: Some(LineRange { start_line: 2, end_line: 4 }),
            },
        ]
    );
    let (repo, selectors) = parse_source_context_args(&args(&["--file=a.rs", "--lines", "bad"]));
    assert_eq!(repo, ".");
    assert_eq!(selectors, vec![SourceContextSelector::File { path: "a.rs".to_string(), line_range: None }]);
}

#[test]
fn parse_profile_reads_the_first_profile_argument() {
    assert_eq!(parse_profile(&args(&["--profile=strict"])), Some(KernelProfile::Strict));
    assert_eq!(parse_profile(&args(&["--profile=nope", "--profile=strict"])), None);
    assert_eq!(parse_profile(&args(&["x"])), None);
}

#[test]
fn first_positional_arg_skips_flags() {
    assert_eq!(first_positional_arg(&args(&["--json", "repo"])), Some("repo".to_string()));
    assert_eq!(first_positional_arg(&args(&["--json"])), None);
}

#[test]
fn parse_command_dispatches_each_command() {
    assert!(matches!(parse_command(&[]), CliCommand::Help));
    assert!(matches!(parse_command(&args(&["-h"])), CliCommand::Help));
    match parse_command(&args(&["inspect"])) {
        CliCommand::Inspect { repo_path } => assert_eq!(repo_path, "."),
        _ => panic!("expected inspect"),
    }
    match parse_command(&args(&["symbols", "--json", "repo"])) {
        CliCommand::Symbols { repo_path } => assert_eq!(repo_path, "repo"),
        _ => panic!("expected symbols"),
    }
    match parse_command(&args(&["impact", "a.rs"])) {
        CliCommand::Impact { changed_files } => assert_eq!(changed_files, args(&["a.rs"])),
        _ => panic!("expected impact"),
    }
    match parse_command(&args(&["where-to-edit", "fix it", "--profile=research"])) {
        CliCommand::WhereToEdit { task, profile } => {
            assert_eq!(task, "fix it");
            assert_eq!(profile, KernelProfile::Research);
        }
        _ => panic!("expected where-to-edit"),
    }
    match parse_command(&args(&["where-to-edit"])) {
        CliCommand::WhereToEdit { task, profile } => {
            assert_eq!(task, "");
            assert_eq!(profile, KernelProfile::Standard);
        }
        _ => panic!("expected where-to-edit"),
    }
    let unknown = parse_command(&args(&["frobnicate"]));
    assert_eq!(command_exit_code(&unknown), 5);
    match unknown {
        CliCommand::Unknown { command } => assert_eq!(command, "frobnicate"),
        _ => panic!("expected unknown"),
    }
    assert_eq!(command_exit_code(&CliCommand::RepoMap), 0);
}

#[test]
fn evaluation_exit_code_is_seven_on_failure() {
    assert_eq!(evaluation_exit_code(Some(0)), 0);
    assert_eq!(evaluation_exit_code(Some(2)), 7);
    assert_eq!(evaluation_exit_code(None), 7);
}
