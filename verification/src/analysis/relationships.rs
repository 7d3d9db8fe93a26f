//! Resolving imports to files of the project.
//!
//! Paths are handled as their components (`Path::components`): the root
//! `/` when a path is absolute, then its names, with `..` kept and `.`
//! dropped. Which candidate files exist is for the caller to find out.
use vstd::prelude::*;

use crate::project::paths::{
    component_views, components, extension, extension_of, join, join_components, path_components,
    path_starts_with, starts_with_path, string_views,
};
use crate::text::{
    chars_of, push_str, replace_char, starts_with, str_eq, str_replace_char, str_starts_with,
    str_trim_start_char, trim_start_char,
};

use super::types::{FileAnalysis, ImportKind, ImportReference};

verus! {

/// The root component of an absolute path.
pub open spec fn root_component() -> Seq<char> {
    seq!['/']
}

/// `Path::parent` of a relative file path, `""` when it has none.
pub open spec fn source_dir_of(path: Seq<Seq<char>>) -> Seq<Seq<char>> {
    if path.len() == 0 || path == seq![root_component()] {
        seq![]
    } else {
        path.drop_last()
    }
}

/// `PathBuf::pop`: drops the last component unless there is no parent.
pub open spec fn popped(p: Seq<Seq<char>>) -> Seq<Seq<char>> {
    source_dir_of(p)
}

/// `PathBuf::pop` applied `n` times.
pub open spec fn popped_times(p: Seq<Seq<char>>, n: nat) -> Seq<Seq<char>>
    decreases n,
{
    if n == 0 {
        p
    } else {
        popped_times(popped(p), (n - 1) as nat)
    }
}

/// `Path::join`: an absolute path replaces the base.
pub open spec fn joined(base: Seq<Seq<char>>, p: Seq<Seq<char>>) -> Seq<Seq<char>> {
    if p.len() > 0 && p[0] == root_component() {
        p
    } else {
        base + p
    }
}

/// Number of leading `.` characters.
pub open spec fn leading_dots(s: Seq<char>) -> nat
    decreases s.len(),
{
    if s.len() > 0 && s[0] == '.' {
        1 + leading_dots(s.drop_first())
    } else {
        0
    }
}

/// The file a Python module names: relative modules (`.x`, `..x`) from the
/// importing file's folder, one folder up per extra dot; others from the
/// project root; dots separate folders.
pub open spec fn python_candidate(dir: Seq<Seq<char>>, module: Seq<char>) -> Seq<Seq<char>> {
    if starts_with(module, "."@) {
        joined(
            popped_times(dir, (leading_dots(module) - 1) as nat),
            path_components(replace_char(trim_start_char(module, '.'), '.', "/"@)),
        )
    } else {
        path_components(replace_char(module, '.', "/"@))
    }
}

/// The path an import names: any Python module; for other languages only
/// relative ones (`./x`, `../x`), from the importing file's folder.
pub open spec fn import_candidate(language: Seq<char>, dir: Seq<Seq<char>>, module: Seq<char>) -> Option<Seq<Seq<char>>> {
    if language == "python"@ {
        Some(python_candidate(dir, module))
    } else if starts_with(module, "."@) {
        Some(joined(dir, path_components(module)))
    } else {
        None
    }
}

/// Whether a path climbs out with `..`: it must then stay under the root.
pub open spec fn climbs(p: Seq<Seq<char>>) -> bool {
    p.contains(seq!['.', '.'])
}

/// The extensions tried for a language's imports, in order.
pub open spec fn import_extensions(language: Seq<char>) -> Seq<Seq<char>> {
    if language == "python"@ {
        seq!["py"@, "pyi"@]
    } else if language == "typescript"@ {
        seq!["ts"@, "tsx"@, "mts"@, "cts"@, "js"@, "jsx"@]
    } else {
        seq!["js"@, "jsx"@, "mjs"@, "cjs"@, "ts"@, "tsx"@]
    }
}

/// An import without extension tries every file of its own language: for
/// each extension that makes a file a source of the importing language, the
/// candidate with that extension is among the files tried.
pub proof fn law_imports_try_every_extension_of_their_language(
    candidate: Seq<Seq<char>>,
    extension: Seq<char>,
)
    requires
        extension_of_path(candidate) is None,
        crate::languages::language_for(extension) is Some,
    ensures
        ({
            let language = crate::languages::language_for(extension)->0.id_of();
            probes(candidate, language).contains(with_extension(candidate, extension))
        }),
{
    reveal_strlit("python");
    reveal_strlit("javascript");
    reveal_strlit("typescript");
    assert("python"@[0] != "javascript"@[0]);
    assert("python"@[0] != "typescript"@[0]);
    assert("javascript"@[0] != "typescript"@[0]);
    let language = crate::languages::language_for(extension)->0.id_of();
    let exts = import_extensions(language);
    let k = choose|k: int| 0 <= k < exts.len() && exts[k] == extension;
    let all = probes(candidate, language);
    assert(all[k] == with_extension(candidate, extension));
}

/// The first file an import without extension tries is the candidate with
/// the importing language's main extension: `py`, `js` or `ts`.
pub proof fn law_imports_try_the_main_extension_first(candidate: Seq<Seq<char>>)
    requires
        extension_of_path(candidate) is None,
    ensures
        probes(candidate, "python"@)[0] == with_extension(candidate, "py"@),
        probes(candidate, "javascript"@)[0] == with_extension(candidate, "js"@),
        probes(candidate, "typescript"@)[0] == with_extension(candidate, "ts"@),
        probes(candidate, "javascript"@).contains(candidate.push("index.js"@)),
        probes(candidate, "python"@).contains(candidate.push("__init__.py"@)),
{
    reveal_strlit("python");
    reveal_strlit("javascript");
    reveal_strlit("typescript");
    assert("python"@[0] != "javascript"@[0]);
    assert("python"@[0] != "typescript"@[0]);
    assert("javascript"@[0] != "typescript"@[0]);
    reveal_strlit("index.");
    reveal_strlit("js");
    reveal_strlit("index.js");
    assert("index."@ + "js"@ =~= "index.js"@);
    let all = probes(candidate, "javascript"@);
    assert(all[6] == candidate.push(package_file("javascript"@, "js"@)));
    reveal_strlit("__init__.");
    reveal_strlit("py");
    reveal_strlit("__init__.py");
    assert("__init__."@ + "py"@ =~= "__init__.py"@);
    let py = probes(candidate, "python"@);
    assert(py[2] == candidate.push(package_file("python"@, "py"@)));
}

/// `Path::extension` of a path.
pub open spec fn extension_of_path(p: Seq<Seq<char>>) -> Option<Seq<char>> {
    if p.len() == 0 || p.last() == root_component() || p.last() == seq!['.', '.'] {
        None
    } else {
        extension_of(p.last())
    }
}

/// `Path::with_extension` of a path without extension.
pub open spec fn with_extension(p: Seq<Seq<char>>, e: Seq<char>) -> Seq<Seq<char>> {
    if p.len() == 0 || p.last() == root_component() || p.last() == seq!['.', '.'] {
        p
    } else {
        p.drop_last().push(p.last() + "."@ + e)
    }
}

/// The module file a package folder holds for an extension.
pub open spec fn package_file(language: Seq<char>, e: Seq<char>) -> Seq<char> {
    if language == "python"@ {
        "__init__."@ + e
    } else {
        "index."@ + e
    }
}

/// The files tried for a candidate, in order: itself when it has an
/// extension; otherwise with each extension, then the package file in it
/// for each extension.
pub open spec fn probes(candidate: Seq<Seq<char>>, language: Seq<char>) -> Seq<Seq<Seq<char>>> {
    let exts = import_extensions(language);
    if extension_of_path(candidate) is Some {
        seq![candidate]
    } else {
        exts.map_values(|e: Seq<char>| with_extension(candidate, e)) + exts.map_values(
            |e: Seq<char>| candidate.push(package_file(language, e)),
        )
    }
}

pub open spec fn not_root() -> spec_fn(Seq<char>) -> bool {
    |c: Seq<char>| c != root_component()
}

/// A path as text relative to the root: its names and `..`, joined by `/`.
pub open spec fn normalized_path(p: Seq<Seq<char>>) -> Seq<char> {
    crate::project::paths::join(p.filter(not_root()))
}

fn is_root(c: &String) -> (r: bool)
    ensures
        r == (c@ == root_component()),
{
    let v = chars_of(c);
    let r = v.len() == 1 && v[0] == '/';
    proof {
        if v@.len() == 1 && v@[0] == '/' {
            assert(v@ =~= root_component());
        }
        if c@ == root_component() {
            assert(v@[0] == '/');
        }
    }
    r
}

fn is_parent_dir(c: &String) -> (r: bool)
    ensures
        r == (c@ == seq!['.', '.']),
{
    let v = chars_of(c);
    let r = v.len() == 2 && v[0] == '.' && v[1] == '.';
    proof {
        if r {
            assert(v@ =~= seq!['.', '.']);
        }
        if c@ == seq!['.', '.'] {
            assert(v@[0] == '.' && v@[1] == '.');
        }
    }
    r
}

fn copy_components(p: &Vec<String>) -> (r: Vec<String>)
    ensures
        string_views(r@) == string_views(p@),
{
    let mut r: Vec<String> = Vec::new();
    for i in 0..p.len()
        invariant
            r@ == p@.take(i as int),
    {
        r.push(p[i].clone());
        assert(r@ =~= p@.take(i + 1));
    }
    assert(p@.take(p@.len() as int) =~= p@);
    r
}

/// `Path::parent`, empty when there is none.
fn source_dir(p: &Vec<String>) -> (r: Vec<String>)
    ensures
        string_views(r@) == source_dir_of(string_views(p@)),
{
    if p.len() == 0 {
        return Vec::new();
    }
    if p.len() == 1 && is_root(&p[0]) {
        assert(string_views(p@) =~= seq![root_component()]);
        return Vec::new();
    }
    proof {
        if string_views(p@) == seq![root_component()] {
            assert(string_views(p@)[0] == p@[0]@);
        }
    }
    let mut r = copy_components(p);
    r.pop();
    assert(string_views(r@) =~= string_views(p@).drop_last());
    r
}

/// `Path::join` of two paths given by their components.
fn join_paths(base: &Vec<String>, p: &Vec<String>) -> (r: Vec<String>)
    ensures
        string_views(r@) == joined(string_views(base@), string_views(p@)),
{
    if p.len() > 0 && is_root(&p[0]) {
        return copy_components(p);
    }
    let mut r = copy_components(base);
    let ghost start = r@;
    for i in 0..p.len()
        invariant
            r@ == start + p@.take(i as int),
    {
        r.push(p[i].clone());
        assert(r@ =~= start + p@.take(i + 1));
    }
    assert(p@.take(p@.len() as int) =~= p@);
    assert(string_views(r@) =~= string_views(start) + string_views(p@));
    r
}

fn leading_dot_count(s: &str) -> (r: usize)
    ensures
        r == leading_dots(s@),
{
    let v = chars_of(s);
    let mut i: usize = 0;
    assert(v@.skip(0) =~= v@);
    while i < v.len() && v[i] == '.'
        invariant
            i <= v@.len(),
            v@ == s@,
            leading_dots(s@) == i + leading_dots(v@.skip(i as int)),
        decreases v.len() - i,
    {
        assert(v@.skip(i as int).drop_first() =~= v@.skip(i + 1));
        i = i + 1;
    }
    i
}

/// The file a Python module names, by components.
pub fn python_candidate_of(dir: &Vec<String>, module: &str) -> (r: Vec<String>)
    ensures
        string_views(r@) == python_candidate(string_views(dir@), module@),
{
    if str_starts_with(module, ".") {
        let dots = leading_dot_count(module);
        proof {
            crate::text::lemma_starts_with_dot_count(module@);
        }
        let mut base = copy_components(dir);
        let mut k: usize = 1;
        assert(popped_times(string_views(dir@), 0) == string_views(dir@));
        while k < dots
            invariant
                1 <= k <= dots,
                string_views(base@) == popped_times(string_views(dir@), (k - 1) as nat),
            decreases dots - k,
        {
            proof {
                lemma_popped_times_step(string_views(dir@), (k - 1) as nat);
            }
            base = source_dir(&base);
            k = k + 1;
        }
        let stripped = str_trim_start_char(module, '.');
        let slashed = str_replace_char(&stripped, '.', "/");
        let suffix = components(&slashed);
        join_paths(&base, &suffix)
    } else {
        let slashed = str_replace_char(module, '.', "/");
        components(&slashed)
    }
}

/// The path an import names, when it may be a file of the project.
pub fn import_candidate_of(language: &str, dir: &Vec<String>, module: &str) -> (r: Option<Vec<String>>)
    ensures
        match r {
            Some(c) => import_candidate(language@, string_views(dir@), module@) == Some(
                string_views(c@),
            ),
            None => import_candidate(language@, string_views(dir@), module@) is None,
        },
{
    if str_eq(language, "python") {
        Some(python_candidate_of(dir, module))
    } else if str_starts_with(module, ".") {
        let suffix = components(module);
        Some(join_paths(dir, &suffix))
    } else {
        None
    }
}

proof fn lemma_popped_times_step(p: Seq<Seq<char>>, n: nat)
    ensures
        popped_times(p, n + 1) == popped(popped_times(p, n)),
    decreases n,
{
    if n > 0 {
        lemma_popped_times_step(popped(p), (n - 1) as nat);
        assert(popped_times(p, n) == popped_times(popped(p), (n - 1) as nat));
        assert(popped_times(p, n + 1) == popped_times(popped(p), n));
    } else {
        assert(popped_times(popped(p), 0) == popped(p));
        assert(popped_times(p, 1) == popped_times(popped(p), 0));
    }
}

fn import_extensions_of(language: &str) -> (r: Vec<&'static str>)
    ensures
        r@.len() == import_extensions(language@).len(),
        forall|k: int| 0 <= k < r@.len() ==> #[trigger] r@[k]@ == import_extensions(language@)[k],
{
    if str_eq(language, "python") {
        vec!["py", "pyi"]
    } else if str_eq(language, "typescript") {
        vec!["ts", "tsx", "mts", "cts", "js", "jsx"]
    } else {
        vec!["js", "jsx", "mjs", "cjs", "ts", "tsx"]
    }
}

/// Whether the last component is a name (not the root or `..`).
fn ends_in_name(c: &Vec<String>) -> (r: bool)
    ensures
        r == !(c@.len() == 0 || string_views(c@).last() == root_component() || string_views(
            c@,
        ).last() == seq!['.', '.']),
{
    if c.len() == 0 {
        return false;
    }
    let last = &c[c.len() - 1];
    !is_root(last) && !is_parent_dir(last)
}

fn has_extension(c: &Vec<String>) -> (r: bool)
    ensures
        r == (extension_of_path(string_views(c@)) is Some),
{
    if !ends_in_name(c) {
        return false;
    }
    extension(&c[c.len() - 1]).is_some()
}

fn with_extension_of(c: &Vec<String>, e: &str) -> (r: Vec<String>)
    ensures
        string_views(r@) == with_extension(string_views(c@), e@),
{
    if !ends_in_name(c) {
        return copy_components(c);
    }
    let mut r = copy_components(c);
    let mut name = r.pop().unwrap();
    push_str(&mut name, ".");
    push_str(&mut name, e);
    r.push(name);
    assert(string_views(r@) =~= with_extension(string_views(c@), e@));
    r
}

fn with_package_file(c: &Vec<String>, language: &str, e: &str) -> (r: Vec<String>)
    ensures
        string_views(r@) == string_views(c@).push(package_file(language@, e@)),
{
    let mut r = copy_components(c);
    let mut name = String::new();
    if str_eq(language, "python") {
        push_str(&mut name, "__init__.");
    } else {
        push_str(&mut name, "index.");
    }
    push_str(&mut name, e);
    r.push(name);
    assert(string_views(r@) =~= string_views(c@).push(package_file(language@, e@)));
    r
}

/// The text of a path relative to the root.
pub fn normalized(c: &Vec<String>) -> (r: String)
    ensures
        r@ == normalized_path(string_views(c@)),
{
    let mut names: Vec<String> = Vec::new();
    assert(string_views(c@).take(0).filter(not_root()) =~= Seq::<Seq<char>>::empty()) by {
        reveal(Seq::filter);
    }
    for i in 0..c.len()
        invariant
            string_views(names@) == string_views(c@).take(i as int).filter(not_root()),
    {
        proof {
            reveal(Seq::filter);
            assert(string_views(c@).take(i + 1).drop_last() =~= string_views(c@).take(i as int));
        }
        if !is_root(&c[i]) {
            let ghost before = string_views(names@);
            names.push(c[i].clone());
            assert(string_views(names@) =~= before.push(c@[i as int]@));
        }
    }
    assert(string_views(c@).take(c@.len() as int) =~= string_views(c@));
    assert(component_views(names@) =~= string_views(names@));
    join_components(&names)
}

/// A file tried for an import: its path from the project root by
/// components, and its text when it is the one.
pub struct ImportProbe {
    pub components: Vec<String>,
    pub resolved: String,
}

/// How to look for the file of an import.
pub struct ImportPlan {
    /// The path the import names, by components from the project root.
    pub candidate: Vec<String>,
    /// Whether the path climbs with `..`: it then counts only when its
    /// canonical form stays under the root.
    pub climbs: bool,
    /// The files to try, in order; the first that exists is the import's.
    pub probes: Vec<ImportProbe>,
}

/// The first index from `i` on whose flag is set.
pub open spec fn first_set(flags: Seq<bool>, i: int) -> Option<int>
    decreases flags.len() - i,
{
    if i < 0 || i >= flags.len() {
        None
    } else if flags[i] {
        Some(i)
    } else {
        first_set(flags, i + 1)
    }
}

/// The file an import resolves to, given the canonical form of a climbing
/// candidate (`None` when it has none) and which probes exist: nothing when
/// a climbing candidate does not stay under `root`, otherwise the first
/// probe that exists.
pub fn chosen_probe(plan: &ImportPlan, root: &str, canonical: Option<&str>, exists: &Vec<bool>) -> (r:
    Option<String>)
    requires
        exists@.len() == plan.probes@.len(),
    ensures
        (plan.climbs && !(canonical matches Some(c) && path_starts_with(c@, root@))) ==> r is None,
        !(plan.climbs && !(canonical matches Some(c) && path_starts_with(c@, root@))) ==> match first_set(
            exists@,
            0,
        ) {
            Some(k) => r matches Some(p) && p@ == plan.probes@[k].resolved@,
            None => r is None,
        },
{
    if plan.climbs {
        let inside = match canonical {
            Some(c) => starts_with_path(c, root),
            None => false,
        };
        if !inside {
            return None;
        }
    }
    let mut k: usize = 0;
    while k < exists.len()
        invariant
            k <= exists@.len(),
            exists@.len() == plan.probes@.len(),
            first_set(exists@, 0) == first_set(exists@, k as int),
            plan.climbs ==> (canonical matches Some(c) && path_starts_with(c@, root@)),
        decreases exists@.len() - k,
    {
        if exists[k] {
            return Some(plan.probes[k].resolved.clone());
        }
        k = k + 1;
    }
    None
}

/// How to resolve `module`, imported in `language` by the file at
/// `relative_path`; `None` when it cannot be a file of the project.
pub fn plan_import(language: &str, relative_path: &str, module: &str) -> (r: Option<ImportPlan>)
    ensures
        ({
            let dir = source_dir_of(path_components(relative_path@));
            match r {
                None => import_candidate(language@, dir, module@) is None,
                Some(plan) => import_candidate(language@, dir, module@) == Some(
                    string_views(plan.candidate@),
                ) && plan.climbs == climbs(string_views(plan.candidate@)) && plan.probes@.len()
                    == probes(string_views(plan.candidate@), language@).len() && forall|k: int|
                    0 <= k < plan.probes@.len() ==> string_views(
                        #[trigger] plan.probes@[k].components@,
                    ) == probes(string_views(plan.candidate@), language@)[k]
                        && plan.probes@[k].resolved@ == normalized_path(
                        probes(string_views(plan.candidate@), language@)[k],
                    )
            }
        }),
{
    let path = components(relative_path);
    let dir = source_dir(&path);
    let candidate = match import_candidate_of(language, &dir, module) {
        Some(c) => c,
        None => return None,
    };
    let ghost cv = string_views(candidate@);
    let mut climbs_up = false;
    for i in 0..candidate.len()
        invariant
            cv == string_views(candidate@),
            climbs_up == exists|j: int| 0 <= j < i && #[trigger] cv[j] == seq!['.', '.'],
    {
        assert(cv[i as int] == candidate@[i as int]@);
        if is_parent_dir(&candidate[i]) {
            climbs_up = true;
        }
    }
    let ghost all = probes(cv, language@);
    let mut found: Vec<ImportProbe> = Vec::new();
    if has_extension(&candidate) {
        let probe = ImportProbe { components: copy_components(&candidate), resolved: normalized(&candidate) };
        found.push(probe);
    } else {
        let exts = import_extensions_of(language);
        let ghost n = exts@.len();
        let ghost ev = import_extensions(language@);
        let mut k: usize = 0;
        while k < exts.len()
            invariant
                k <= n,
                n == exts@.len(),
                n == ev.len(),
                ev == import_extensions(language@),
                forall|t: int| 0 <= t < n ==> #[trigger] exts@[t]@ == ev[t],
                extension_of_path(cv) is None,
                all == probes(cv, language@),
                cv == string_views(candidate@),
                found@.len() == k,
                forall|t: int|
                    0 <= t < k ==> string_views((#[trigger] found@[t]).components@) == all[t]
                        && found@[t].resolved@ == normalized_path(all[t]),
            decreases n - k,
        {
            let comps = with_extension_of(&candidate, exts[k]);
            let resolved = normalized(&comps);
            found.push(ImportProbe { components: comps, resolved });
            k = k + 1;
        }
        let mut m: usize = 0;
        while m < exts.len()
            invariant
                m <= n,
                n == exts@.len(),
                n == ev.len(),
                ev == import_extensions(language@),
                forall|t: int| 0 <= t < n ==> #[trigger] exts@[t]@ == ev[t],
                extension_of_path(cv) is None,
                all == probes(cv, language@),
                cv == string_views(candidate@),
                found@.len() == n + m,
                forall|t: int|
                    0 <= t < found@.len() ==> string_views((#[trigger] found@[t]).components@)
                        == all[t] && found@[t].resolved@ == normalized_path(all[t]),
            decreases n - m,
        {
            let comps = with_package_file(&candidate, language, exts[m]);
            let resolved = normalized(&comps);
            found.push(ImportProbe { components: comps, resolved });
            m = m + 1;
        }
    }
    assert(found@.len() == all.len());
    Some(ImportPlan { candidate, climbs: climbs_up, probes: found })
}

/// An import after resolution: local at the found file, or external with
/// its path unchanged.
pub open spec fn import_resolved(
    now: ImportReference,
    before: ImportReference,
    found: Option<String>,
) -> bool {
    &&& now.module == before.module
    &&& match found {
        Some(p) => now.kind == ImportKind::Local && now.resolved_path == Some(p),
        None => now.kind == ImportKind::External && now.resolved_path == before.resolved_path,
    }
}

/// Records where each import of a file was found: the found file makes the
/// import local; an import not found is external and keeps its path.
pub fn resolve_imports(analysis: &mut FileAnalysis, found: &Vec<Option<String>>)
    requires
        found@.len() == old(analysis).imports@.len(),
    ensures
        final(analysis).imports@.len() == old(analysis).imports@.len(),
        forall|i: int|
            0 <= i < found@.len() ==> import_resolved(
                #[trigger] final(analysis).imports@[i],
                old(analysis).imports@[i],
                found@[i],
            ),
        final(analysis).path == old(analysis).path,
        final(analysis).language == old(analysis).language,
        final(analysis).content_hash == old(analysis).content_hash,
        final(analysis).source == old(analysis).source,
        final(analysis).symbols@ == old(analysis).symbols@,
        final(analysis).parse_errors == old(analysis).parse_errors,
        final(analysis).cached == old(analysis).cached,
{
    let n = analysis.imports.len();
    let mut imports: Vec<ImportReference> = Vec::new();
    for i in 0..n
        invariant
            n == analysis.imports@.len(),
            n == found@.len(),
            analysis.imports@ == old(analysis).imports@,
            imports@.len() == i,
            forall|j: int|
                0 <= j < i ==> import_resolved(
                    #[trigger] imports@[j],
                    old(analysis).imports@[j],
                    found@[j],
                ),
    {
        let import = &analysis.imports[i];
        let updated = match &found[i] {
            Some(p) => ImportReference {
                module: import.module.clone(),
                kind: ImportKind::Local,
                resolved_path: Some(p.clone()),
            },
            None => ImportReference {
                module: import.module.clone(),
                kind: ImportKind::External,
                resolved_path: import.resolved_path.clone(),
            },
        };
        imports.push(updated);
    }
    analysis.imports = imports;
}

} // verus!
