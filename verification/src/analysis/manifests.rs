//! Dependencies declared by `package.json`, `requirements.txt` and
//! `pyproject.toml`.
use vstd::prelude::*;

use super::types::{AnalysisError, DependencyScope, ManifestDependency};
use crate::text::{chars_of, concat, lines, lines_of, string_of, subseq, trim, trim_vec};

verus! {

/// A manifest file the statistics read.
#[derive(Debug, Clone, Copy, PartialEq, Eq, Structural)]
pub enum ManifestKind {
    Package,
    Requirements,
    Pyproject,
}

pub open spec fn opt_view(o: Option<String>) -> Option<Seq<char>> {
    match o {
        Some(s) => Some(s@),
        None => None,
    }
}

/// A dependency by its characters.
pub struct DependencyView {
    pub name: Seq<char>,
    pub version: Option<Seq<char>>,
    pub scope: DependencyScope,
    pub manifest: Seq<char>,
}

impl View for ManifestDependency {
    type V = DependencyView;

    open spec fn view(&self) -> DependencyView {
        DependencyView {
            name: self.name@,
            version: opt_view(self.version),
            scope: self.scope,
            manifest: self.manifest@,
        }
    }
}

pub open spec fn views(deps: Seq<ManifestDependency>) -> Seq<DependencyView> {
    deps.map_values(|d: ManifestDependency| d@)
}

/// What `serde_json` reads from `source` for each of `keys`: an error
/// message when `source` is not JSON; otherwise, for each key, when the
/// top-level member of that name is an object, its members in the order the
/// map gives them, each with its value when that value is a string.
pub uninterp spec fn json_object_sections(source: Seq<char>, keys: Seq<Seq<char>>) -> Result<
    Seq<Option<Seq<(Seq<char>, Option<Seq<char>>)>>>,
    Seq<char>,
>;

pub open spec fn member_views(v: Seq<(String, Option<String>)>) -> Seq<(Seq<char>, Option<Seq<char>>)> {
    v.map_values(|p: (String, Option<String>)| (p.0@, opt_view(p.1)))
}

pub open spec fn section_views(v: Seq<Option<Vec<(String, Option<String>)>>>) -> Seq<Option<Seq<(Seq<char>, Option<Seq<char>>)>>> {
    v.map_values(
        |o: Option<Vec<(String, Option<String>)>>|
            match o {
                Some(m) => Some(member_views(m@)),
                None => None,
            },
    )
}

pub open spec fn str_views(keys: Seq<&str>) -> Seq<Seq<char>> {
    keys.map_values(|k: &str| k@)
}

/// Parses `source` once with `serde_json::from_str` and reads, for each key,
/// the top-level object with `Value::get` and `Value::as_object`, each
/// member's value with `Value::as_str`. The contract names the result and
/// states that there is one section per key.
#[verifier::external_body]
fn json_sections(source: &str, keys: &Vec<&str>) -> (r: Result<Vec<Option<Vec<(String, Option<String>)>>>, String>)
    ensures
        json_object_sections(source@, str_views(keys@)) == match r {
            Ok(v) => Ok(section_views(v@)),
            Err(e) => Err(e@),
        },
        r matches Ok(v) ==> v@.len() == keys@.len(),
{
    serde_json::from_str::<serde_json::Value>(source).map(
        |value| keys.iter().map(|key| value.get(*key).and_then(serde_json::Value::as_object).map(
            |members| members.iter().map(|(name, version)| (name.clone(), version.as_str().map(str::to_owned))).collect(),
        )).collect(),
    ).map_err(|error| error.to_string())
}

/// What `toml` reads from `source` at `table.key`: an error message when
/// `source` is not TOML; otherwise, when `table.key` is an array, each item's
/// string when the item is a string.
pub uninterp spec fn toml_array_items(source: Seq<char>, table: Seq<char>, key: Seq<char>) -> Result<
    Option<Seq<Option<Seq<char>>>>,
    Seq<char>,
>;

/// Parses `source` with `toml::from_str` and reads `table.key` with
/// `Value::get`, `Value::as_array` and `Value::as_str`. The contract only
/// names the result.
#[verifier::external_body]
fn toml_items(source: &str, table: &str, key: &str) -> (r: Result<Option<Vec<Option<String>>>, String>)
    ensures
        toml_array_items(source@, table@, key@) == match r {
            Ok(Some(v)) => Ok(Some(v@.map_values(|o: Option<String>| opt_view(o)))),
            Ok(None) => Ok(None),
            Err(e) => Err(e@),
        },
{
    toml::from_str::<toml::Value>(source).map(
        |value| value.get(table).and_then(|section| section.get(key)).and_then(toml::Value::as_array).map(
            |items| items.iter().map(|item| item.as_str().map(str::to_owned)).collect(),
        ),
    ).map_err(|error| error.to_string())
}

pub open spec fn manifest_error_message(detail: Seq<char>) -> Seq<char> {
    "Could not read dependency manifest: "@ + detail
}

/// The error for an unreadable or malformed manifest.
pub fn manifest_error(detail: &str) -> (r: AnalysisError)
    ensures
        r.code == "manifestInvalid",
        r.message@ == manifest_error_message(detail@),
{
    AnalysisError::new("manifestInvalid", concat("Could not read dependency manifest: ", detail))
}

pub open spec fn is_version_char(c: char) -> bool {
    c == '=' || c == '<' || c == '>' || c == '~' || c == '!'
}

/// Index of the first version operator character of `s`, if any.
pub open spec fn version_split(s: Seq<char>) -> int
    decreases s.len(),
{
    if s.len() == 0 {
        0
    } else if is_version_char(s[0]) {
        0
    } else {
        1 + version_split(s.drop_first())
    }
}

/// A requirement `name<op>version`: the name is the trimmed text before the
/// first operator, the version the trimmed rest when there is one.
pub open spec fn requirement(line: Seq<char>, manifest: Seq<char>) -> Option<DependencyView> {
    let split = version_split(line);
    let name = trim(line.take(split));
    if name.len() == 0 {
        None
    } else {
        Some(
            DependencyView {
                name,
                version: if split < line.len() {
                    Some(trim(line.skip(split)))
                } else {
                    None
                },
                scope: DependencyScope::Runtime,
                manifest,
            },
        )
    }
}

proof fn lemma_version_split_bounds(s: Seq<char>)
    ensures
        0 <= version_split(s) <= s.len(),
        version_split(s) < s.len() ==> is_version_char(s[version_split(s)]),
        forall|i: int| 0 <= i < version_split(s) ==> !is_version_char(#[trigger] s[i]),
    decreases s.len(),
{
    if s.len() > 0 && !is_version_char(s[0]) {
        lemma_version_split_bounds(s.drop_first());
        assert forall|i: int| 0 <= i < version_split(s) implies !is_version_char(#[trigger] s[i]) by {
            if i > 0 {
                assert(s[i] == s.drop_first()[i - 1]);
            }
        }
    }
}

/// Parses one requirement, given its trimmed line.
pub fn parse_requirement(line: &Vec<char>, manifest: &str) -> (r: Option<ManifestDependency>)
    ensures
        match r {
            Some(d) => requirement(line@, manifest@) == Some(d@),
            None => requirement(line@, manifest@) is None,
        },
{
    proof {
        lemma_version_split_bounds(line@);
    }
    let mut split: usize = 0;
    while split < line.len() && !(line[split] == '=' || line[split] == '<' || line[split] == '>'
        || line[split] == '~' || line[split] == '!')
        invariant
            split <= line.len(),
            forall|i: int| 0 <= i < split ==> !is_version_char(#[trigger] line@[i]),
        decreases line.len() - split,
    {
        split = split + 1;
    }
    assert(split == version_split(line@)) by {
        if split < version_split(line@) {
            assert(!is_version_char(line@[split as int]));
        }
        if version_split(line@) < split {
            assert(is_version_char(line@[version_split(line@)]));
        }
    }
    let name = trim_vec(&subseq(line, 0, split));
    assert(line@.subrange(0, split as int) =~= line@.take(split as int));
    if name.len() == 0 {
        return None;
    }
    let version = if split < line.len() {
        let rest = trim_vec(&subseq(line, split, line.len()));
        assert(line@.subrange(split as int, line@.len() as int) =~= line@.skip(split as int));
        Some(string_of(&rest))
    } else {
        None
    };
    Some(
        ManifestDependency {
            name: string_of(&name),
            version,
            scope: DependencyScope::Runtime,
            manifest: manifest.to_owned(),
        },
    )
}

/// Lines of `requirements.txt` that declare something: not blank, not a
/// comment (`#`) and not an option (`-`).
pub open spec fn requirement_line(line: Seq<char>) -> bool {
    let t = trim(line);
    t.len() > 0 && t[0] != '#' && t[0] != '-'
}

pub open spec fn requirement_of_line(line: Seq<char>) -> Option<DependencyView> {
    if requirement_line(line) {
        requirement(trim(line), "requirements.txt"@)
    } else {
        None
    }
}

/// The dependencies of a `requirements.txt`, in file order.
pub open spec fn requirements_spec(source: Seq<char>) -> Seq<DependencyView> {
    lines(source).filter_map(|l: Seq<char>| requirement_of_line(l))
}

pub fn requirements_dependencies(source: &str) -> (r: Vec<ManifestDependency>)
    ensures
        views(r@) == requirements_spec(source@),
{
    let all = lines_of(source);
    let ghost ls = lines(source@);
    let ghost f = |l: Seq<char>| requirement_of_line(l);
    let mut out: Vec<ManifestDependency> = Vec::new();
    for i in 0..all.len()
        invariant
            all@.len() == ls.len(),
            ls == lines(source@),
            forall|k: int| 0 <= k < all@.len() ==> #[trigger] all@[k]@ == ls[k],
            f == (|l: Seq<char>| requirement_of_line(l)),
            views(out@) == ls.take(i as int).filter_map(f),
    {
        proof {
            ls.lemma_filter_map_take_succ(f, i as int);
        }
        let line = trim_vec(&chars_of(&all[i]));
        if line.len() > 0 && line[0] != '#' && line[0] != '-' {
            if let Some(dep) = parse_requirement(&line, "requirements.txt") {
                let ghost before = out@;
                out.push(dep);
                assert(views(out@) =~= views(before).push(dep@));
            }
        }
    }
    assert(ls.take(all@.len() as int) =~= ls);
    out
}

/// The dependencies read from the string items of `[project].dependencies`.
pub open spec fn pyproject_items_spec(items: Seq<Option<Seq<char>>>) -> Seq<DependencyView> {
    items.filter_map(
        |o: Option<Seq<char>>|
            match o {
                Some(item) => requirement(item, "pyproject.toml"@),
                None => None,
            },
    )
}

/// Dependencies of a `pyproject.toml`: an error when it is not TOML, the
/// requirements among the strings of `[project].dependencies` otherwise.
pub fn pyproject_dependencies(source: &str) -> (r: Result<Vec<ManifestDependency>, AnalysisError>)
    ensures
        match toml_array_items(source@, "project"@, "dependencies"@) {
            Err(e) => r matches Err(err) && err.code == "manifestInvalid" && err.message@
                == manifest_error_message(e),
            Ok(None) => r matches Ok(v) && v@.len() == 0,
            Ok(Some(items)) => r matches Ok(v) && views(v@) == pyproject_items_spec(items),
        },
{
    let items = match toml_items(source, "project", "dependencies") {
        Ok(Some(items)) => items,
        Ok(None) => {
            return Ok(Vec::new());
        },
        Err(message) => {
            return Err(manifest_error(&message));
        },
    };
    Ok(pyproject_item_dependencies(&items))
}

/// The dependencies among the items of `[project].dependencies`: each
/// string item that is a requirement, in order.
pub fn pyproject_item_dependencies(items: &Vec<Option<String>>) -> (r: Vec<ManifestDependency>)
    ensures
        views(r@) == pyproject_items_spec(items@.map_values(|o: Option<String>| opt_view(o))),
{
    let ghost spec_items = items@.map_values(|o: Option<String>| opt_view(o));
    let ghost f = |o: Option<Seq<char>>|
        match o {
            Some(item) => requirement(item, "pyproject.toml"@),
            None => None,
        };
    let mut out: Vec<ManifestDependency> = Vec::new();
    for i in 0..items.len()
        invariant
            spec_items == items@.map_values(|o: Option<String>| opt_view(o)),
            f == (|o: Option<Seq<char>>|
                match o {
                    Some(item) => requirement(item, "pyproject.toml"@),
                    None => None,
                }),
            views(out@) == spec_items.take(i as int).filter_map(f),
    {
        proof {
            spec_items.lemma_filter_map_take_succ(f, i as int);
        }
        if let Some(item) = &items[i] {
            if let Some(dep) = parse_requirement(&chars_of(item), "pyproject.toml") {
                let ghost before = out@;
                out.push(dep);
                assert(views(out@) =~= views(before).push(dep@));
            }
        }
    }
    assert(spec_items.take(items@.len() as int) =~= spec_items);
    out
}

/// The dependencies of the members of one `package.json` section.
pub open spec fn package_section_spec(members: Seq<(Seq<char>, Option<Seq<char>>)>, scope: DependencyScope) -> Seq<DependencyView> {
    members.map_values(
        |m: (Seq<char>, Option<Seq<char>>)|
            DependencyView { name: m.0, version: m.1, scope, manifest: "package.json"@ },
    )
}

pub open spec fn section_deps(section: Option<Seq<(Seq<char>, Option<Seq<char>>)>>, scope: DependencyScope) -> Seq<DependencyView> {
    match section {
        Some(members) => package_section_spec(members, scope),
        None => seq![],
    }
}

pub open spec fn package_keys() -> Seq<Seq<char>> {
    seq!["dependencies"@, "devDependencies"@, "optionalDependencies"@]
}

/// Dependencies of a `package.json`: an error when it is not JSON, otherwise
/// those of `dependencies`, `devDependencies` and `optionalDependencies`, in
/// that order.
pub fn package_dependencies(source: &str) -> (r: Result<Vec<ManifestDependency>, AnalysisError>)
    ensures
        match json_object_sections(source@, package_keys()) {
            Err(e) => r matches Err(err) && err.code == "manifestInvalid" && err.message@
                == manifest_error_message(e),
            Ok(sections) => r matches Ok(v) && views(v@) == section_deps(
                sections[0],
                DependencyScope::Runtime,
            ) + section_deps(sections[1], DependencyScope::Development) + section_deps(
                sections[2],
                DependencyScope::Optional,
            ),
        },
{
    let keys: Vec<&str> = vec!["dependencies", "devDependencies", "optionalDependencies"];
    assert(str_views(keys@) =~= package_keys());
    let sections = match json_sections(source, &keys) {
        Ok(sections) => sections,
        Err(message) => {
            return Err(manifest_error(&message));
        },
    };
    assert(section_views(sections@).len() == 3);
    Ok(package_section_dependencies(&sections))
}

/// The dependencies of the `dependencies`, `devDependencies` and
/// `optionalDependencies` sections of a `package.json`, in that order.
pub fn package_section_dependencies(sections: &Vec<Option<Vec<(String, Option<String>)>>>) -> (r: Vec<
    ManifestDependency,
>)
    requires
        sections@.len() == 3,
    ensures
        views(r@) == section_deps(section_views(sections@)[0], DependencyScope::Runtime)
            + section_deps(section_views(sections@)[1], DependencyScope::Development)
            + section_deps(section_views(sections@)[2], DependencyScope::Optional),
{
    let mut out: Vec<ManifestDependency> = Vec::new();
    append_section(&sections[0], DependencyScope::Runtime, &mut out);
    append_section(&sections[1], DependencyScope::Development, &mut out);
    append_section(&sections[2], DependencyScope::Optional, &mut out);
    assert(views(out@) =~= section_deps(section_views(sections@)[0], DependencyScope::Runtime)
        + section_deps(section_views(sections@)[1], DependencyScope::Development) + section_deps(
        section_views(sections@)[2],
        DependencyScope::Optional,
    ));
    out
}

/// Appends the dependencies of one section to `out`.
fn append_section(section: &Option<Vec<(String, Option<String>)>>, scope: DependencyScope, out: &mut Vec<ManifestDependency>)
    ensures
        views(final(out)@) == views(old(out)@) + section_deps(
            match *section {
                Some(m) => Some(member_views(m@)),
                None => None,
            },
            scope,
        ),
{
    let members = match section {
        Some(members) => members,
        None => {
            assert(views(out@) =~= views(out@) + seq![]);
            return;
        },
    };
    let ghost start = views(out@);
    let ghost ms = member_views(members@);
    for i in 0..members.len()
        invariant
            ms == member_views(members@),
            views(out@) == start + package_section_spec(ms.take(i as int), scope),
    {
        let (name, version) = &members[i];
        let ghost before = views(out@);
        out.push(
            ManifestDependency {
                name: name.clone(),
                version: version.clone(),
                scope,
                manifest: "package.json".to_owned(),
            },
        );
        assert(package_section_spec(ms.take(i + 1), scope) =~= package_section_spec(
            ms.take(i as int),
            scope,
        ).push(out@.last()@));
        assert(views(out@) =~= before.push(out@.last()@));
    }
    assert(ms.take(members@.len() as int) =~= ms);
}

} // verus!
