use vstd::prelude::*;

use super::builder::{
    lemma_warnings_chain, lemma_warnings_none, lemma_warnings_push, warning_as, warnings_added, EvidenceDesc, WarningBase,
    command_cites, test_cites,
    cites_added, lemma_cites_chain, lemma_cites_command, lemma_cites_component, lemma_cites_none, lemma_cites_quiet, lemma_cites_test,
    CiteRule,
    command_views, component_views, has_command, has_component, has_file, has_issue, has_manager, has_test, test_views, with_command,
    with_component, with_test, RepoGraphBuilder,
};
use super::config::{as_text, cfg_get, cfg_str, get_key, get_opt, ConfigValue};
use super::manifest_config::{pyproject_pytest_field, pyproject_pytest_field_exec};
use super::manifest_text::{requirements_mention_pytest, requirements_mention_pytest_exec};
use super::snapshot::{
    document_spec, exists_spec, is_dir_spec, manifest_warning_category, manifest_warning_category_spec, path_exists, path_is_dir,
    read_document, read_text, text_spec, RepoSnapshot,
};
use super::types::{DetectedFileKind, DetectionCategory, DetectionSeverity, PackageManagerKind, RepoCommandKind};
use crate::text::{concat2, owned, slashes};
use crate::textset::views;

verus! {

fn detect_python_lockfile(s: &RepoSnapshot, b: &mut RepoGraphBuilder, file_name: &str, kind: PackageManagerKind, name: &str) -> (found: bool)
    requires
        old(b).wf(),
    ensures
        final(b).wf(),
        final(b).keeps_known(old(b)),
        final(b).extends(old(b)),
        found == exists_spec(*s, file_name@),
        !found ==> *final(b) == *old(b),
        final(b).warnings@ == old(b).warnings@,
        final(b).components@ == old(b).components@,
        final(b).commands@ == old(b).commands@,
        final(b).tests@ == old(b).tests@,
        found ==> has_file(final(b).detected_files@, slashes(file_name@), DetectedFileKind::Lockfile)
            && has_manager(final(b).package_managers@, kind, name@),
{
    if path_exists(s, file_name) {
        let reason = concat2(name, " lockfile detected.");
        let ev = b.add_detected_file(file_name, DetectedFileKind::Lockfile, "lockfile", None, reason.as_str());
        b.add_package_manager(kind, name, ev);
        true
    } else {
        false
    }
}

/// Reads `pyproject.toml`: the manifest's evidence when it is present, and the
/// evidence for pytest when the manifest configures it.
fn detect_pyproject(s: &RepoSnapshot, b: &mut RepoGraphBuilder) -> (r: (Option<String>, Option<String>))
    requires
        old(b).wf(),
    ensures
        final(b).wf(),
        final(b).keeps_known(old(b)),
        final(b).extends(old(b)),
        r.0 is Some == exists_spec(*s, "pyproject.toml"@),
        r.1 is Some == (exists_spec(*s, "pyproject.toml"@) && match document_spec(*s, "pyproject.toml"@) {
            Ok(m) => pyproject_pytest_field(m) is Some,
            Err(_) => false,
        }),
        match r.0 {
            Some(e) => final(b).knows(e@),
            None => true,
        },
        match r.1 {
            Some(e) => final(b).knows(e@),
            None => true,
        },
        !exists_spec(*s, "pyproject.toml"@) ==> *final(b) == *old(b),
        exists_spec(*s, "pyproject.toml"@) ==> has_file(final(b).detected_files@, "pyproject.toml"@, DetectedFileKind::Manifest),
        component_views(final(b).components@) == python_components(*s, component_views(old(b).components@)),
        final(b).commands@ == old(b).commands@,
        final(b).tests@ == old(b).tests@,
        warnings_added(old(b).warnings@, final(b).warnings@, final(b).evidence@, pyproject_warnings(*s)),
        match r.0 {
            Some(e) => final(b).names(e@, pyproject_file_evidence()),
            None => true,
        },
        match r.1 {
            Some(e) => final(b).names(e@, pyproject_pytest_desc(*s)),
            None => true,
        },
        cites_added(*old(b), *final(b), python_component_rule(), python_command_rule(*s), python_command_rule(*s)),
        exists_spec(*s, "pyproject.toml"@) ==> match document_spec(*s, "pyproject.toml"@) {
            Ok(m) => {
                &&& python_project_name(m) is Some ==> has_component(final(b).components@, "component-python-project"@)
                &&& cfg_get(cfg_get(Some(m), "tool"@), "poetry"@) is Some ==> has_manager(
                    final(b).package_managers@,
                    PackageManagerKind::Poetry,
                    "poetry"@,
                )
            },
            Err(e) => has_issue(
                final(b).warnings@,
                DetectionSeverity::Error,
                manifest_warning_category_spec(e),
                e,
                Some("pyproject.toml"@),
            ),
        },
{
    proof {
        reveal_strlit("pyproject.toml");
        assert(slashes("pyproject.toml"@) =~= "pyproject.toml"@);
    }
    let ghost s0 = *b;
    proof {
        lemma_cites_none(s0, s0, python_component_rule(), python_command_rule(*s), python_command_rule(*s));
    }
    if !path_exists(s, "pyproject.toml") {
        return (None, None);
    }
    let ghost w0 = b.warnings@;
    let me = b.add_detected_file("pyproject.toml", DetectedFileKind::Manifest, "manifest", None, "Python project manifest detected.");
    proof {
        reveal_strlit("manifest");
        reveal_strlit("Python project manifest detected.");
    }
    assert(b.names(me@, pyproject_file_evidence()));
    let mut pytest_evidence: Option<String> = None;
    match read_document(s, "pyproject.toml") {
        Ok(manifest) => {
            let tool = get_key(manifest, "tool");
            let name = match as_text(get_opt(get_key(manifest, "project"), "name")) {
                Some(n) => Some(n),
                None => as_text(get_opt(get_opt(tool, "poetry"), "name")),
            };
            match name {
                Some(n) => {
                    let ev = b.add_evidence("pyproject.toml", "manifest", Some("project.name"), "Python project name.");
                    let ghost q0 = *b;
                    proof {
                        lemma_cites_quiet(s0, s0, q0, python_component_rule(), python_command_rule(*s), python_command_rule(*s));
                        assert(b.names(ev@, ("pyproject.toml"@, "manifest"@, Some("project.name"@), "Python project name."@)));
                    }
                    let mut patterns: Vec<String> = Vec::new();
                    patterns.push(owned("pyproject.toml"));
                    patterns.push(owned("requirements.txt"));
                    patterns.push(owned("src/**"));
                    patterns.push(owned("tests/**"));
                    assert(views(patterns@) =~= seq!["pyproject.toml"@, "requirements.txt"@, "src/**"@, "tests/**"@]);
                    b.add_component("component-python-project", n.as_str(), "python_project", ".", patterns, ev);
                    proof {
                        lemma_cites_component(
                            q0,
                            *b,
                            "component-python-project"@,
                            ev@,
                            ("pyproject.toml"@, "manifest"@, Some("project.name"@), "Python project name."@),
                            python_component_rule(),
                            python_command_rule(*s),
                            python_command_rule(*s),
                        );
                        lemma_cites_chain(s0, q0, *b, python_component_rule(), python_command_rule(*s), python_command_rule(*s));
                    }
                },
                None => {
                    proof {
                        lemma_cites_quiet(s0, s0, *b, python_component_rule(), python_command_rule(*s), python_command_rule(*s));
                    }
                },
            }
            let ghost q1 = *b;
            if get_opt(tool, "poetry").is_some() {
                b.add_package_manager(PackageManagerKind::Poetry, "poetry", me.clone());
            }
            match pyproject_pytest_field_exec(manifest) {
                Some(field) => {
                    let ev = b.add_evidence(
                        "pyproject.toml",
                        "test_config",
                        Some(field.as_str()),
                        "pytest evidence detected in pyproject.toml.",
                    );
                    assert(b.names(ev@, pyproject_pytest_desc(*s)));
                    pytest_evidence = Some(ev);
                },
                None => {},
            }
            proof {
                lemma_cites_quiet(s0, q1, *b, python_component_rule(), python_command_rule(*s), python_command_rule(*s));
            }
        },
        Err(message) => {
            let category = manifest_warning_category(message.as_str());
            let ghost before = *b;
            b.add_warning(DetectionSeverity::Error, category, message.as_str(), Some("pyproject.toml"), Some(me.clone()));
            proof {
                lemma_warnings_none(w0, before.evidence@);
                let x = (
                    (DetectionSeverity::Error, manifest_warning_category_spec(message@), message@, Some("pyproject.toml"@)),
                    Some(pyproject_file_evidence()),
                );
                assert(warning_as(b.warnings@.last(), b.evidence@, x));
                lemma_warnings_push(w0, w0, before.evidence@, seq![], b.warnings@, b.evidence@, x);
                assert(seq![].push(x) =~= pyproject_warnings(*s));
                lemma_cites_quiet(s0, s0, *b, python_component_rule(), python_command_rule(*s), python_command_rule(*s));
            }
        },
    }
    proof {
        if !(document_spec(*s, "pyproject.toml"@) is Err) {
            lemma_warnings_none(w0, b.evidence@);
            assert(pyproject_warnings(*s) =~= seq![]);
        }
    }
    (Some(me), pytest_evidence)
}

/// Reads `requirements.txt`: the file's evidence when it is present, and the
/// evidence for pytest when it names pytest.
fn detect_requirements(s: &RepoSnapshot, b: &mut RepoGraphBuilder) -> (r: (Option<String>, Option<String>))
    requires
        old(b).wf(),
    ensures
        final(b).wf(),
        final(b).keeps_known(old(b)),
        final(b).extends(old(b)),
        r.0 is Some == exists_spec(*s, "requirements.txt"@),
        r.1 is Some == (exists_spec(*s, "requirements.txt"@) && match text_spec(*s, "requirements.txt"@) {
            Some(t) => requirements_mention_pytest(t),
            None => false,
        }),
        match r.0 {
            Some(e) => final(b).knows(e@),
            None => true,
        },
        match r.1 {
            Some(e) => final(b).knows(e@),
            None => true,
        },
        !exists_spec(*s, "requirements.txt"@) ==> *final(b) == *old(b),
        final(b).warnings@ == old(b).warnings@,
        match r.0 {
            Some(e) => final(b).names(e@, ("requirements.txt"@, "manifest"@, None, "Python requirements file detected."@)),
            None => true,
        },
        match r.1 {
            Some(e) => final(b).names(e@, requirements_pytest_desc()),
            None => true,
        },
        final(b).components@ == old(b).components@,
        final(b).commands@ == old(b).commands@,
        final(b).tests@ == old(b).tests@,
        exists_spec(*s, "requirements.txt"@) ==> has_file(final(b).detected_files@, "requirements.txt"@, DetectedFileKind::Manifest)
            && has_manager(final(b).package_managers@, PackageManagerKind::Pip, "pip"@),
{
    proof {
        reveal_strlit("requirements.txt");
        assert(slashes("requirements.txt"@) =~= "requirements.txt"@);
    }
    if !path_exists(s, "requirements.txt") {
        return (None, None);
    }
    let ev = b.add_detected_file("requirements.txt", DetectedFileKind::Manifest, "manifest", None, "Python requirements file detected.");
    b.add_package_manager(PackageManagerKind::Pip, "pip", ev.clone());
    let mentions = match read_text(s, "requirements.txt") {
        Some(text) => requirements_mention_pytest_exec(text.as_str()),
        None => false,
    };
    let pytest = if mentions {
        Some(b.add_evidence(
            "requirements.txt",
            "test_config",
            Some("requirements.pytest"),
            "pytest dependency detected in requirements.txt.",
        ))
    } else {
        None
    };
    (Some(ev), pytest)
}

/// What the Python project component cites: the manifest's `project.name` field.
pub open spec fn python_component_rule() -> CiteRule {
    |id: Seq<char>, d: EvidenceDesc| d == ("pyproject.toml"@, "manifest"@, Some("project.name"@), "Python project name."@)
}

/// What the pytest command and test target cite: the evidence for pytest.
pub open spec fn python_command_rule(s: RepoSnapshot) -> CiteRule {
    |c: Seq<char>, d: EvidenceDesc| d == python_pytest_desc(s)
}

/// What the evidence for pytest in `pyproject.toml` says: the field that names it.
pub open spec fn pyproject_pytest_desc(s: RepoSnapshot) -> EvidenceDesc {
    (
        "pyproject.toml"@,
        "test_config"@,
        match document_spec(s, "pyproject.toml"@) {
            Ok(m) => pyproject_pytest_field(m),
            Err(_) => None,
        },
        "pytest evidence detected in pyproject.toml."@,
    )
}

/// What the evidence for pytest in `requirements.txt` says.
pub open spec fn requirements_pytest_desc() -> EvidenceDesc {
    ("requirements.txt"@, "test_config"@, Some("requirements.pytest"@), "pytest dependency detected in requirements.txt."@)
}

/// The evidence that the pytest command and test target cite: `pytest.ini`, else the
/// pytest line of `requirements.txt`, else the pytest field of `pyproject.toml`.
pub open spec fn python_pytest_desc(s: RepoSnapshot) -> EvidenceDesc {
    if exists_spec(s, "pytest.ini"@) {
        ("pytest.ini"@, "test_config"@, None, "pytest.ini detected."@)
    } else if exists_spec(s, "requirements.txt"@) && match text_spec(s, "requirements.txt"@) {
        Some(t) => requirements_mention_pytest(t),
        None => false,
    } {
        requirements_pytest_desc()
    } else {
        pyproject_pytest_desc(s)
    }
}

/// The name of a Python project: `project.name`, else `tool.poetry.name`.
pub open spec fn python_project_name(m: ConfigValue) -> Option<Seq<char>> {
    match cfg_str(cfg_get(cfg_get(Some(m), "project"@), "name"@)) {
        Some(n) => Some(n),
        None => cfg_str(cfg_get(cfg_get(cfg_get(Some(m), "tool"@), "poetry"@), "name"@)),
    }
}

/// The root `pyproject.toml`, when it is present and parses.
pub open spec fn pyproject_doc(s: RepoSnapshot) -> Option<ConfigValue> {
    if exists_spec(s, "pyproject.toml"@) {
        match document_spec(s, "pyproject.toml"@) {
            Ok(m) => Some(m),
            Err(_) => None,
        }
    } else {
        None
    }
}

/// The components after Python detection: the project, named by its manifest, when
/// the manifest parses and names it.
pub open spec fn python_components(s: RepoSnapshot, cs: Seq<(Seq<char>, Seq<char>, Seq<char>, Seq<char>, Seq<Seq<char>>)>) -> Seq<(Seq<char>, Seq<char>, Seq<char>, Seq<char>, Seq<Seq<char>>)> {
    match pyproject_doc(s) {
        Some(m) => match python_project_name(m) {
            Some(n) => with_component(
                cs,
                (
                    "component-python-project"@,
                    n,
                    "python_project"@,
                    "."@,
                    seq!["pyproject.toml"@, "requirements.txt"@, "src/**"@, "tests/**"@],
                ),
            ),
            None => cs,
        },
        None => cs,
    }
}

/// The commands after Python detection: `pytest` when there is evidence for it, and
/// nothing otherwise.
pub open spec fn python_commands(s: RepoSnapshot, cs: Seq<(Seq<char>, RepoCommandKind, Seq<char>, Seq<char>, Option<Seq<char>>, u32)>) -> Seq<(Seq<char>, RepoCommandKind, Seq<char>, Seq<char>, Option<Seq<char>>, u32)> {
    if python_pytest_evidence(s) {
        with_command(cs, ("cmd-python-pytest"@, RepoCommandKind::Test, "pytest"@, "."@, Some("component-python-project"@), 75))
    } else {
        cs
    }
}

/// The test targets after Python detection: `pytest` when there is evidence for it,
/// and nothing otherwise.
pub open spec fn python_tests(s: RepoSnapshot, ts: Seq<(Seq<char>, Seq<char>, Seq<char>, Seq<char>, Option<Seq<char>>, u32)>) -> Seq<(Seq<char>, Seq<char>, Seq<char>, Seq<char>, Option<Seq<char>>, u32)> {
    if python_pytest_evidence(s) {
        with_test(ts, ("test-python-pytest"@, "pytest"@, "pytest"@, "."@, Some("component-python-project"@), 75))
    } else {
        ts
    }
}

/// What the manifest of a Python project says about itself as evidence.
pub open spec fn pyproject_file_evidence() -> EvidenceDesc {
    ("pyproject.toml"@, "manifest"@, None, "Python project manifest detected."@)
}

/// The warning for a `pyproject.toml` that could not be used.
pub open spec fn pyproject_warnings(s: RepoSnapshot) -> Seq<(WarningBase, Option<EvidenceDesc>)> {
    if exists_spec(s, "pyproject.toml"@) {
        match document_spec(s, "pyproject.toml"@) {
            Ok(_) => seq![],
            Err(e) => seq![(
                (DetectionSeverity::Error, manifest_warning_category_spec(e), e, Some("pyproject.toml"@)),
                Some(pyproject_file_evidence()),
            )],
        }
    } else {
        seq![]
    }
}

/// The evidence of the Python project as a whole: `requirements.txt` when present,
/// else `pyproject.toml` when present.
pub open spec fn python_project_evidence(s: RepoSnapshot) -> Option<EvidenceDesc> {
    if exists_spec(s, "requirements.txt"@) {
        Some(("requirements.txt"@, "manifest"@, None, "Python requirements file detected."@))
    } else if exists_spec(s, "pyproject.toml"@) {
        Some(pyproject_file_evidence())
    } else {
        None
    }
}

/// The warnings of Python detection, in order: the manifest's, then, without pytest
/// evidence, that the tests directory gave no test command, or that nothing did.
pub open spec fn python_warnings(s: RepoSnapshot) -> Seq<(WarningBase, Option<EvidenceDesc>)> {
    pyproject_warnings(s) + if python_pytest_evidence(s) || !python_detected(s) {
        seq![]
    } else if is_dir_spec(s, "tests"@) {
        seq![(
            (
                DetectionSeverity::Info,
                DetectionCategory::AmbiguousDetection,
                "Python tests directory detected, but no pytest evidence was found; no test command was inferred."@,
                Some("tests"@),
            ),
            Some(("tests"@, "directory"@, None, "tests directory detected."@)),
        )]
    } else {
        seq![(
            (
                DetectionSeverity::Info,
                DetectionCategory::MissingCommand,
                "Python project detected but no pytest configuration or tests directory was found."@,
                if exists_spec(s, "pyproject.toml"@) {
                    Some("pyproject.toml"@)
                } else if exists_spec(s, "requirements.txt"@) {
                    Some("requirements.txt"@)
                } else {
                    None
                },
            ),
            python_project_evidence(s),
        )]
    }
}

/// Some file of a Python project is present.
pub open spec fn python_detected(s: RepoSnapshot) -> bool {
    ||| exists_spec(s, "pyproject.toml"@)
    ||| exists_spec(s, "uv.lock"@)
    ||| exists_spec(s, "poetry.lock"@)
    ||| exists_spec(s, "requirements.txt"@)
    ||| exists_spec(s, "pytest.ini"@)
}

/// There is evidence for pytest: in `pyproject.toml`, in `requirements.txt`, or a
/// `pytest.ini`.
pub open spec fn python_pytest_evidence(s: RepoSnapshot) -> bool {
    ||| exists_spec(s, "pyproject.toml"@) && match document_spec(s, "pyproject.toml"@) {
        Ok(m) => pyproject_pytest_field(m) is Some,
        Err(_) => false,
    }
    ||| exists_spec(s, "requirements.txt"@) && match text_spec(s, "requirements.txt"@) {
        Some(t) => requirements_mention_pytest(t),
        None => false,
    }
    ||| exists_spec(s, "pytest.ini"@)
}

/// What Python detection records of a repository.
pub open spec fn python_recorded(s: RepoSnapshot, b: RepoGraphBuilder) -> bool {
    &&& exists_spec(s, "pyproject.toml"@) ==> has_file(b.detected_files@, "pyproject.toml"@, DetectedFileKind::Manifest)
    &&& exists_spec(s, "pyproject.toml"@) ==> match document_spec(s, "pyproject.toml"@) {
        Ok(m) => {
            &&& python_project_name(m) is Some ==> has_component(b.components@, "component-python-project"@)
            &&& cfg_get(cfg_get(Some(m), "tool"@), "poetry"@) is Some ==> has_manager(
                b.package_managers@,
                PackageManagerKind::Poetry,
                "poetry"@,
            )
        },
        Err(e) => has_issue(
            b.warnings@,
            DetectionSeverity::Error,
            manifest_warning_category_spec(e),
            e,
            Some("pyproject.toml"@),
        ),
    }
    &&& exists_spec(s, "uv.lock"@) ==> has_file(b.detected_files@, "uv.lock"@, DetectedFileKind::Lockfile)
        && has_manager(b.package_managers@, PackageManagerKind::Uv, "uv"@)
    &&& exists_spec(s, "poetry.lock"@) ==> has_file(b.detected_files@, "poetry.lock"@, DetectedFileKind::Lockfile)
        && has_manager(b.package_managers@, PackageManagerKind::Poetry, "poetry"@)
    &&& exists_spec(s, "requirements.txt"@) ==> has_file(b.detected_files@, "requirements.txt"@, DetectedFileKind::Manifest)
        && has_manager(b.package_managers@, PackageManagerKind::Pip, "pip"@)
    &&& exists_spec(s, "pytest.ini"@) ==> has_file(b.detected_files@, "pytest.ini"@, DetectedFileKind::TestConfig)
    &&& python_detected(s) && is_dir_spec(s, "tests"@) ==> has_file(b.detected_files@, "tests"@, DetectedFileKind::TestConfig)
    &&& python_pytest_evidence(s) ==> has_command(b.commands@, "pytest"@) && has_test(b.tests@, "pytest"@)
    &&& !python_pytest_evidence(s) && python_detected(s) && is_dir_spec(s, "tests"@) ==> has_issue(
        b.warnings@,
        DetectionSeverity::Info,
        DetectionCategory::AmbiguousDetection,
        "Python tests directory detected, but no pytest evidence was found; no test command was inferred."@,
        Some("tests"@),
    )
    &&& !python_pytest_evidence(s) && python_detected(s) && !is_dir_spec(s, "tests"@) ==> has_issue(
        b.warnings@,
        DetectionSeverity::Info,
        DetectionCategory::MissingCommand,
        "Python project detected but no pytest configuration or tests directory was found."@,
        if exists_spec(s, "pyproject.toml"@) {
            Some("pyproject.toml"@)
        } else if exists_spec(s, "requirements.txt"@) {
            Some("requirements.txt"@)
        } else {
            None
        },
    )
}

/// Detects a Python project: `pyproject.toml` (its name, Poetry, pytest), uv and
/// Poetry lockfiles, `requirements.txt`, `pytest.ini` and a tests directory, and
/// infers pytest when there is evidence for it.
#[verifier::rlimit(40)]
pub fn detect_python(s: &RepoSnapshot, b: &mut RepoGraphBuilder)
    requires
        old(b).wf(),
    ensures
        final(b).wf(),
        final(b).keeps_known(old(b)),
        final(b).extends(old(b)),
        !python_detected(*s) ==> *final(b) == *old(b),
        python_recorded(*s, *final(b)),
        component_views(final(b).components@) == python_components(*s, component_views(old(b).components@)),
        command_views(final(b).commands@) == python_commands(*s, command_views(old(b).commands@)),
        test_views(final(b).tests@) == python_tests(*s, test_views(old(b).tests@)),
        warnings_added(old(b).warnings@, final(b).warnings@, final(b).evidence@, python_warnings(*s)),
        cites_added(*old(b), *final(b), python_component_rule(), python_command_rule(*s), python_command_rule(*s)),
        python_pytest_evidence(*s) && !has_command(old(b).commands@, "pytest"@) ==> command_cites(
            final(b).commands@,
            final(b).evidence@,
            "pytest"@,
            python_pytest_desc(*s),
        ),
        python_pytest_evidence(*s) && !has_test(old(b).tests@, "pytest"@) ==> test_cites(
            final(b).tests@,
            final(b).evidence@,
            "pytest"@,
            python_pytest_desc(*s),
        ),
{
    proof {
        reveal_strlit("pyproject.toml");
        reveal_strlit("uv.lock");
        reveal_strlit("poetry.lock");
        reveal_strlit("requirements.txt");
        reveal_strlit("pytest.ini");
        reveal_strlit("tests");
        assert(slashes("pyproject.toml"@) =~= "pyproject.toml"@);
        assert(slashes("uv.lock"@) =~= "uv.lock"@);
        assert(slashes("poetry.lock"@) =~= "poetry.lock"@);
        assert(slashes("requirements.txt"@) =~= "requirements.txt"@);
        assert(slashes("pytest.ini"@) =~= "pytest.ini"@);
        assert(slashes("tests"@) =~= "tests"@);
    }
    let ghost w0 = b.warnings@;
    let (pyproject_evidence, pyproject_pytest) = detect_pyproject(s, b);
    let ghost after_pyproject = *b;
    let uv = detect_python_lockfile(s, b, "uv.lock", PackageManagerKind::Uv, "uv");
    let poetry = detect_python_lockfile(s, b, "poetry.lock", PackageManagerKind::Poetry, "poetry");
    let (requirements_evidence, requirements_pytest) = detect_requirements(s, b);
    let ini_evidence = if path_exists(s, "pytest.ini") {
        Some(b.add_detected_file("pytest.ini", DetectedFileKind::TestConfig, "test_config", None, "pytest.ini detected."))
    } else {
        None
    };
    let pyproject_exists = pyproject_evidence.is_some();
    let requirements_exists = requirements_evidence.is_some();
    let detected = pyproject_exists || uv || poetry || requirements_exists || ini_evidence.is_some();
    let pytest_evidence = if ini_evidence.is_some() {
        ini_evidence
    } else if requirements_pytest.is_some() {
        requirements_pytest
    } else {
        pyproject_pytest
    };
    let project_evidence = if requirements_exists { requirements_evidence } else { pyproject_evidence };
    let tests_evidence = if detected && path_is_dir(s, "tests") {
        Some(b.add_detected_file("tests", DetectedFileKind::TestConfig, "directory", None, "tests directory detected."))
    } else {
        None
    };
    let ghost bb = *b;
    let ghost pw = pyproject_warnings(*s);
    proof {
        lemma_cites_quiet(*old(b), after_pyproject, bb, python_component_rule(), python_command_rule(*s), python_command_rule(*s));
        lemma_warnings_none(bb.warnings@, bb.evidence@);
        lemma_warnings_chain(w0, after_pyproject.warnings@, after_pyproject.evidence@, pw, bb.warnings@, bb.evidence@, seq![]);
        assert(pw + seq![] =~= pw);
        if project_evidence is Some {
            assert(bb.names(project_evidence->0@, python_project_evidence(*s).unwrap()));
        }
    }
    match pytest_evidence {
        Some(ev) => {
            proof {
                reveal_strlit("pytest");
                reveal_strlit("pytest.ini");
                assert(bb.names(ev@, python_pytest_desc(*s)));
                assert(bb.commands@ == old(b).commands@);
                assert(bb.tests@ == old(b).tests@);
            }
            b.add_command("cmd-python-pytest", RepoCommandKind::Test, "pytest", Some("component-python-project"), 75, ev.clone());
            let ghost q1 = *b;
            proof {
                lemma_cites_command(bb, q1, "pytest"@, ev@, python_pytest_desc(*s), python_component_rule(), python_command_rule(*s), python_command_rule(*s));
                lemma_cites_chain(*old(b), bb, q1, python_component_rule(), python_command_rule(*s), python_command_rule(*s));
                if !has_command(old(b).commands@, "pytest"@) {
                    let n = b.commands@.len() - 1;
                    assert(b.commands@[n] == b.commands@.last());
                }
            }
            b.add_test("test-python-pytest", "pytest", "pytest", Some("component-python-project"), 75, ev);
            proof {
                lemma_cites_test(q1, *b, "pytest"@, ev@, python_pytest_desc(*s), python_component_rule(), python_command_rule(*s), python_command_rule(*s));
                lemma_cites_chain(*old(b), q1, *b, python_component_rule(), python_command_rule(*s), python_command_rule(*s));
                if !has_test(old(b).tests@, "pytest"@) {
                    let n = b.tests@.len() - 1;
                    assert(b.tests@[n] == b.tests@.last());
                }
            }
            assert(pw =~= python_warnings(*s));
        },
        None => match tests_evidence {
            Some(ev) => {
                b.add_warning(
                    DetectionSeverity::Info,
                    DetectionCategory::AmbiguousDetection,
                    "Python tests directory detected, but no pytest evidence was found; no test command was inferred.",
                    Some("tests"),
                    Some(ev),
                );
                proof {
                    let x = (
                        (
                            DetectionSeverity::Info,
                            DetectionCategory::AmbiguousDetection,
                            "Python tests directory detected, but no pytest evidence was found; no test command was inferred."@,
                            Some("tests"@),
                        ),
                        Some(("tests"@, "directory"@, None, "tests directory detected."@)),
                    );
                    assert(warning_as(b.warnings@.last(), b.evidence@, x));
                    lemma_warnings_push(w0, bb.warnings@, bb.evidence@, pw, b.warnings@, b.evidence@, x);
                    assert(pw.push(x) =~= python_warnings(*s));
                    lemma_cites_quiet(*old(b), bb, *b, python_component_rule(), python_command_rule(*s), python_command_rule(*s));
                }
            },
            None => {
                if detected {
                    let path = if pyproject_exists {
                        Some("pyproject.toml")
                    } else if requirements_exists {
                        Some("requirements.txt")
                    } else {
                        None
                    };
                    b.add_warning(
                        DetectionSeverity::Info,
                        DetectionCategory::MissingCommand,
                        "Python project detected but no pytest configuration or tests directory was found.",
                        path,
                        project_evidence,
                    );
                    proof {
                        let x = (
                            (
                                DetectionSeverity::Info,
                                DetectionCategory::MissingCommand,
                                "Python project detected but no pytest configuration or tests directory was found."@,
                                if exists_spec(*s, "pyproject.toml"@) {
                                    Some("pyproject.toml"@)
                                } else if exists_spec(*s, "requirements.txt"@) {
                                    Some("requirements.txt"@)
                                } else {
                                    None
                                },
                            ),
                            python_project_evidence(*s),
                        );
                        assert(warning_as(b.warnings@.last(), b.evidence@, x));
                        lemma_warnings_push(w0, bb.warnings@, bb.evidence@, pw, b.warnings@, b.evidence@, x);
                        assert(pw.push(x) =~= python_warnings(*s));
                        lemma_cites_quiet(*old(b), bb, *b, python_component_rule(), python_command_rule(*s), python_command_rule(*s));
                    }
                } else {
                    assert(pw =~= python_warnings(*s));
                }
            },
        },
    }
}

} // verus!
