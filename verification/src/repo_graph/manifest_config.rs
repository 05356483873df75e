use vstd::prelude::*;

use super::config::{as_text, cfg_get, cfg_list, cfg_str, cfg_table, get_key, get_opt, lookup, text_items, texts_of, ConfigValue};
use super::manifest_text::{dependency_name_matches, dependency_name_matches_exec};
use crate::order::{sort_items, sorted, Ordered};
use crate::text::{concat2, concat3, lemma_seq_lt_total, lemma_seq_lt_transitive, owned, seq_le, seq_lt, text_eq, text_less};
use crate::textset::views;

verus! {

// ---------------------------------------------------------------------------
// package.json workspaces
// ---------------------------------------------------------------------------

/// The workspace members of a `package.json`: the text items of `workspaces` when it
/// is a list, else of `workspaces.packages`; none when that gives no member.
pub open spec fn package_json_workspaces(manifest: ConfigValue) -> Option<Seq<Seq<char>>> {
    let w = cfg_get(Some(manifest), "workspaces"@);
    match cfg_list(w) {
        Some(items) => if texts_of(items).len() > 0 {
            Some(texts_of(items))
        } else {
            None
        },
        None => match cfg_list(cfg_get(w, "packages"@)) {
            Some(items) => if texts_of(items).len() > 0 {
                Some(texts_of(items))
            } else {
                None
            },
            None => None,
        },
    }
}

pub fn package_json_workspaces_exec(manifest: &ConfigValue) -> (r: Option<Vec<String>>)
    ensures
        match r {
            Some(m) => package_json_workspaces(*manifest) == Some(views(m@)),
            None => package_json_workspaces(*manifest) is None,
        },
{
    let w = get_key(manifest, "workspaces");
    match w {
        Some(ConfigValue::List(items)) => {
            let m = text_items(items);
            if m.len() > 0 {
                Some(m)
            } else {
                None
            }
        },
        _ => {
            match get_opt(w, "packages") {
                Some(ConfigValue::List(items)) => {
                    let m = text_items(items);
                    if m.len() > 0 {
                        Some(m)
                    } else {
                        None
                    }
                },
                _ => None,
            }
        },
    }
}

// ---------------------------------------------------------------------------
// pyproject.toml
// ---------------------------------------------------------------------------

/// A text item that names the package.
pub open spec fn item_names_package(item: ConfigValue, pkg: Seq<char>) -> bool {
    match item {
        ConfigValue::Text(s) => dependency_name_matches(s@, pkg),
        _ => false,
    }
}

/// Some text item of a list names the package.
pub open spec fn list_names_package(v: Option<ConfigValue>, pkg: Seq<char>) -> bool {
    match cfg_list(v) {
        Some(items) => exists|i: int| 0 <= i < items.len() && #[trigger] item_names_package(items[i], pkg),
        None => false,
    }
}

fn list_names_package_exec(v: Option<&ConfigValue>, pkg: &str) -> (r: bool)
    ensures
        r == list_names_package(opt_val(v), pkg@),
{
    match v {
        Some(ConfigValue::List(items)) => {
            assert(cfg_list(opt_val(v)) == Some(items@));
            let mut i: usize = 0;
            while i < items.len()
                invariant
                    i <= items@.len(),
                    cfg_list(opt_val(v)) == Some(items@),
                    forall|k: int| 0 <= k < i ==> !item_names_package(#[trigger] items@[k], pkg@),
                decreases items@.len() - i,
            {
                match &items[i] {
                    ConfigValue::Text(s) => {
                        if dependency_name_matches_exec(s.as_str(), pkg) {
                            assert(item_names_package(items@[i as int], pkg@));
                            assert(exists|k: int| 0 <= k < items@.len() && #[trigger] item_names_package(items@[k], pkg@));
                            let ghost l = cfg_list(opt_val(v)).unwrap();
                            assert(l == items@);
                            assert(exists|k: int| 0 <= k < l.len() && #[trigger] item_names_package(l[k], pkg@));
                            return true;
                        }
                    },
                    _ => {},
                }
                i = i + 1;
            }
            false
        },
        _ => false,
    }
}

/// The first optional-dependency group (in table order) whose list names pytest.
pub open spec fn first_pytest_group(groups: Seq<(String, ConfigValue)>) -> Option<Seq<char>>
    decreases groups.len(),
{
    if groups.len() == 0 {
        None
    } else if list_names_package(Some(groups[0].1), "pytest"@) {
        Some(groups[0].0@)
    } else {
        first_pytest_group(groups.drop_first())
    }
}

/// Where a `pyproject.toml` shows pytest, as a field path.
pub open spec fn pyproject_pytest_field(m: ConfigValue) -> Option<Seq<char>> {
    let tool = cfg_get(Some(m), "tool"@);
    let project = cfg_get(Some(m), "project"@);
    let poetry = cfg_get(tool, "poetry"@);
    if cfg_get(tool, "pytest"@) is Some {
        Some("tool.pytest"@)
    } else if list_names_package(cfg_get(project, "dependencies"@), "pytest"@) {
        Some("project.dependencies.pytest"@)
    } else if cfg_table(cfg_get(project, "optional-dependencies"@)) is Some
        && first_pytest_group(cfg_table(cfg_get(project, "optional-dependencies"@)).unwrap()) is Some {
        Some("project.optional-dependencies."@ + first_pytest_group(cfg_table(cfg_get(project, "optional-dependencies"@)).unwrap()).unwrap() + ".pytest"@)
    } else if cfg_get(cfg_get(poetry, "dev-dependencies"@), "pytest"@) is Some {
        Some("tool.poetry.dev-dependencies.pytest"@)
    } else if cfg_get(cfg_get(cfg_get(cfg_get(poetry, "group"@), "dev"@), "dependencies"@), "pytest"@) is Some {
        Some("tool.poetry.group.dev.dependencies.pytest"@)
    } else {
        None
    }
}

pub open spec fn opt_val(v: Option<&ConfigValue>) -> Option<ConfigValue> {
    match v {
        Some(x) => Some(*x),
        None => None,
    }
}

fn get_in<'a>(v: Option<&'a ConfigValue>, key: &str) -> (r: Option<&'a ConfigValue>)
    ensures
        opt_val(r) == cfg_get(opt_val(v), key@),
{
    let r = get_opt(v, key);
    proof {
        match v {
            Some(x) => {},
            None => {},
        }
    }
    r
}

fn first_pytest_group_exec(groups: &Vec<(String, ConfigValue)>) -> (r: Option<usize>)
    ensures
        match r {
            Some(k) => k < groups@.len() && first_pytest_group(groups@) == Some(groups@[k as int].0@),
            None => first_pytest_group(groups@) is None,
        },
{
    let mut i: usize = 0;
    assert(groups@.skip(0) =~= groups@);
    while i < groups.len()
        invariant
            i <= groups@.len(),
            first_pytest_group(groups@) == first_pytest_group(groups@.skip(i as int)),
        decreases groups@.len() - i,
    {
        assert(groups@.skip(i as int)[0] == groups@[i as int]);
        if list_names_package_exec(Some(&groups[i].1), "pytest") {
            return Some(i);
        }
        assert(groups@.skip(i as int).drop_first() =~= groups@.skip(i + 1));
        i = i + 1;
    }
    None
}

pub fn pyproject_pytest_field_exec(m: &ConfigValue) -> (r: Option<String>)
    ensures
        match r {
            Some(f) => pyproject_pytest_field(*m) == Some(f@),
            None => pyproject_pytest_field(*m) is None,
        },
{
    let tool = get_in(Some(m), "tool");
    let project = get_in(Some(m), "project");
    let poetry = get_in(tool, "poetry");
    if get_in(tool, "pytest").is_some() {
        return Some(owned("tool.pytest"));
    }
    if list_names_package_exec(get_in(project, "dependencies"), "pytest") {
        return Some(owned("project.dependencies.pytest"));
    }
    let od = get_in(project, "optional-dependencies");
    match od {
        Some(ConfigValue::Table(groups)) => {
            assert(cfg_table(cfg_get(opt_val(project), "optional-dependencies"@)) == Some(groups@));
            match first_pytest_group_exec(groups) {
                Some(k) => {
                    let head = concat2("project.optional-dependencies.", groups[k].0.as_str());
                    return Some(concat2(head.as_str(), ".pytest"));
                },
                None => {},
            }
        },
        _ => {},
    }
    if get_in(get_in(poetry, "dev-dependencies"), "pytest").is_some() {
        return Some(owned("tool.poetry.dev-dependencies.pytest"));
    }
    if get_in(get_in(get_in(get_in(poetry, "group"), "dev"), "dependencies"), "pytest").is_some() {
        return Some(owned("tool.poetry.group.dev.dependencies.pytest"));
    }
    None
}

// ---------------------------------------------------------------------------
// Cargo dependencies
// ---------------------------------------------------------------------------

/// A dependency of a Cargo manifest: its name, the field that declares it, and
/// whether it is given by path.
#[derive(Debug, Clone, PartialEq, Eq)]
pub struct CargoDependency {
    pub name: String,
    pub field: String,
    pub path_dependency: bool,
}

/// The dependency is a table with a `path` key.
pub open spec fn is_path_dependency(v: ConfigValue) -> bool {
    match v {
        ConfigValue::Table(entries) => lookup(entries@, "path"@) is Some,
        _ => false,
    }
}

/// The dependencies declared by one section, in table order.
pub open spec fn section_dependencies(section: Seq<char>, entries: Seq<(String, ConfigValue)>) -> Seq<(Seq<char>, Seq<char>, bool)>
    decreases entries.len(),
{
    if entries.len() == 0 {
        seq![]
    } else {
        section_dependencies(section, entries.drop_last()).push(
            (entries.last().0@, section + "."@ + entries.last().0@, is_path_dependency(entries.last().1)),
        )
    }
}

pub open spec fn section_of(m: ConfigValue, section: Seq<char>) -> Seq<(Seq<char>, Seq<char>, bool)> {
    match cfg_table(cfg_get(Some(m), section)) {
        Some(entries) => section_dependencies(section, entries),
        None => seq![],
    }
}

/// The dependencies of a Cargo manifest, before they are ordered by field.
pub open spec fn cargo_dependencies_spec(m: ConfigValue) -> Seq<(Seq<char>, Seq<char>, bool)> {
    section_of(m, "dependencies"@) + section_of(m, "dev-dependencies"@) + section_of(m, "build-dependencies"@)
}

pub open spec fn dependency_view(d: CargoDependency) -> (Seq<char>, Seq<char>, bool) {
    (d.name@, d.field@, d.path_dependency)
}

impl Ordered for CargoDependency {
    open spec fn le(self, other: Self) -> bool {
        seq_le(self.field@, other.field@)
    }

    proof fn lemma_le_transitive(a: Self, b: Self, c: Self) {
        if seq_lt(a.field@, b.field@) && seq_lt(b.field@, c.field@) {
            lemma_seq_lt_transitive(a.field@, b.field@, c.field@);
        }
    }

    proof fn lemma_le_total(a: Self, b: Self) {
        lemma_seq_lt_total(a.field@, b.field@);
    }

    fn le_exec(&self, other: &Self) -> (r: bool) {
        text_less(self.field.as_str(), other.field.as_str()) || text_eq(self.field.as_str(), other.field.as_str())
    }
}

fn is_path_dependency_exec(v: &ConfigValue) -> (r: bool)
    ensures
        r == is_path_dependency(*v),
{
    match v {
        ConfigValue::Table(_) => get_key(v, "path").is_some(),
        _ => false,
    }
}

fn push_section(out: &mut Vec<CargoDependency>, m: &ConfigValue, section: &str)
    ensures
        final(out)@.map_values(|d: CargoDependency| dependency_view(d)) == old(out)@.map_values(|d: CargoDependency| dependency_view(d))
            + section_of(*m, section@),
{
    let ghost start = out@.map_values(|d: CargoDependency| dependency_view(d));
    match get_key(m, section) {
        Some(ConfigValue::Table(entries)) => {
            let mut i: usize = 0;
            assert(start + section_dependencies(section@, entries@.take(0)) =~= start);
            while i < entries.len()
                invariant
                    i <= entries@.len(),
                    out@.map_values(|d: CargoDependency| dependency_view(d)) == start + section_dependencies(section@, entries@.take(i as int)),
                decreases entries@.len() - i,
            {
                assert(entries@.take(i + 1).drop_last() =~= entries@.take(i as int));
                assert(entries@.take(i + 1).last() == entries@[i as int]);
                let name = entries[i].0.clone();
                let field = concat3(section, ".", name.as_str());
                let d = CargoDependency { name, field, path_dependency: is_path_dependency_exec(&entries[i].1) };
                let ghost before = out@.map_values(|d: CargoDependency| dependency_view(d));
                out.push(d);
                assert(out@.map_values(|d: CargoDependency| dependency_view(d)) =~= before.push(dependency_view(d)));
                i = i + 1;
            }
            assert(entries@.take(entries@.len() as int) =~= entries@);
        },
        _ => {
            assert(start + section_of(*m, section@) =~= start);
        },
    }
}

/// The dependencies of a Cargo manifest, ordered by field.
pub fn cargo_dependencies(m: &ConfigValue) -> (r: Vec<CargoDependency>)
    ensures
        sorted(r@),
        r@.map_values(|d: CargoDependency| dependency_view(d)).to_multiset() == cargo_dependencies_spec(*m).to_multiset(),
{
    let mut out: Vec<CargoDependency> = Vec::new();
    assert(out@.map_values(|d: CargoDependency| dependency_view(d)) =~= seq![]);
    push_section(&mut out, m, "dependencies");
    push_section(&mut out, m, "dev-dependencies");
    push_section(&mut out, m, "build-dependencies");
    assert(out@.map_values(|d: CargoDependency| dependency_view(d)) =~= cargo_dependencies_spec(*m));
    let ghost pre = out@;
    let r = sort_items(out);
    proof {
        crate::order::lemma_map_multiset(r@, pre, |d: CargoDependency| dependency_view(d));
    }
    r
}

} // verus!
