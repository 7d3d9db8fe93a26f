//! Line counts, largest files and manifest dependencies of a project.
use vstd::prelude::*;

use super::manifests::{
    manifest_error, package_dependencies, pyproject_dependencies, requirements_dependencies, views,
    DependencyView, ManifestKind,
};
use super::types::{AnalysisError, FileStatistic, ManifestDependency, ProjectStatistics};
use crate::order::{
    compare_str, lemma_seq_le_total, lemma_seq_le_trans, lemma_seq_lt_trichotomy, seq_le, seq_lt,
    keeps_ties, sort_by_key, sorted_by_key, SortKey,
};
use crate::project::types::{EntryKind, ProjectEntry};
use crate::text::{chars_of, contains, lines, lines_of, starts_with, str_eq, trim, trim_vec, vec_contains, vec_starts_with};

verus! {

/// Running totals of `count_lines`: all, code, blank and comment lines, and
/// whether a block comment is open.
pub struct LineState {
    pub total: nat,
    pub code: nat,
    pub blank: nat,
    pub comments: nat,
    pub in_block: bool,
}

/// The effect of one line: blank when it trims to nothing; a comment when it
/// starts with `#` in Python, or, elsewhere, inside a block comment or when it
/// starts with `//`, `/*` or `*`; code otherwise. `/*` without `*/` opens a
/// block comment and `*/` closes it.
pub open spec fn count_step(s: LineState, line: Seq<char>, python: bool) -> LineState {
    let t = trim(line);
    if t.len() == 0 {
        LineState { total: s.total + 1, blank: s.blank + 1, ..s }
    } else if python && starts_with(t, "#"@) {
        LineState { total: s.total + 1, comments: s.comments + 1, ..s }
    } else if !python && (s.in_block || starts_with(t, "//"@) || starts_with(t, "/*"@)
        || starts_with(t, "*"@)) {
        let opened = if starts_with(t, "/*"@) && !contains(t, "*/"@) {
            true
        } else {
            s.in_block
        };
        LineState {
            total: s.total + 1,
            comments: s.comments + 1,
            in_block: if contains(t, "*/"@) {
                false
            } else {
                opened
            },
            ..s
        }
    } else {
        LineState { total: s.total + 1, code: s.code + 1, ..s }
    }
}

pub open spec fn count_all(ls: Seq<Seq<char>>, python: bool) -> LineState
    decreases ls.len(),
{
    if ls.len() == 0 {
        LineState { total: 0, code: 0, blank: 0, comments: 0, in_block: false }
    } else {
        count_step(count_all(ls.drop_last(), python), ls.last(), python)
    }
}

/// Line counts `(total, code, blank, comments)` of `source`.
pub open spec fn line_counts(source: Seq<char>, language: Seq<char>) -> (nat, nat, nat, nat) {
    let s = count_all(lines(source), language == "python"@);
    (s.total, s.code, s.blank, s.comments)
}

proof fn lemma_count_all_sums(ls: Seq<Seq<char>>, python: bool)
    ensures
        count_all(ls, python).total == ls.len(),
        count_all(ls, python).total == count_all(ls, python).code + count_all(ls, python).blank
            + count_all(ls, python).comments,
    decreases ls.len(),
{
    if ls.len() > 0 {
        lemma_count_all_sums(ls.drop_last(), python);
    }
}

/// Every line is exactly one of code, blank or comment.
pub proof fn lemma_line_counts_add_up(source: Seq<char>, language: Seq<char>)
    ensures
        line_counts(source, language).0 == lines(source).len(),
        line_counts(source, language).0 == line_counts(source, language).1 + line_counts(
            source,
            language,
        ).2 + line_counts(source, language).3,
{
    lemma_count_all_sums(lines(source), language == "python"@);
}

/// How a line counts does not depend on its indentation or on trailing
/// blanks: a whitespace character added at either end changes nothing.
pub proof fn law_indentation_does_not_change_a_line(s: LineState, line: Seq<char>, c: char, python: bool)
    requires
        crate::text::is_ws(c),
    ensures
        count_step(s, seq![c] + line, python) == count_step(s, line, python),
        count_step(s, line + seq![c], python) == count_step(s, line, python),
{
    let a = seq![c] + line;
    assert(a.drop_first() =~= line);
    assert(crate::text::trim_start(a) == crate::text::trim_start(line));
    lemma_trim_start_append_ws(line, c);
    let t = crate::text::trim_start(line);
    if t.len() > 0 {
        assert((t + seq![c]).drop_last() =~= t);
    }
}

proof fn lemma_trim_start_append_ws(line: Seq<char>, c: char)
    requires
        crate::text::is_ws(c),
    ensures
        crate::text::trim_start(line).len() > 0 ==> crate::text::trim_start(line + seq![c])
            == crate::text::trim_start(line) + seq![c],
        crate::text::trim_start(line).len() == 0 ==> crate::text::trim_start(line + seq![c]).len()
            == 0,
    decreases line.len(),
{
    if line.len() > 0 && crate::text::is_ws(line[0]) {
        assert((line + seq![c]).drop_first() =~= line.drop_first() + seq![c]);
        lemma_trim_start_append_ws(line.drop_first(), c);
    } else if line.len() == 0 {
        let one = line + seq![c];
        assert(one[0] == c);
        assert(one.drop_first() =~= Seq::<char>::empty());
        assert(crate::text::trim_start(Seq::<char>::empty()).len() == 0);
        assert(crate::text::trim_start(one) == crate::text::trim_start(one.drop_first()));
    }
}

/// In Python, a line whose text starts with `#` after its indentation is a
/// comment: it adds one to the comments and to the total and nothing else.
pub proof fn law_python_hash_lines_are_comments(before: Seq<Seq<char>>, line: Seq<char>)
    requires
        starts_with(trim(line), "#"@),
    ensures
        count_all(before.push(line), true).comments == count_all(before, true).comments + 1,
        count_all(before.push(line), true).code == count_all(before, true).code,
        count_all(before.push(line), true).blank == count_all(before, true).blank,
{
    reveal_strlit("#");
    assert(before.push(line).drop_last() =~= before);
    assert(trim(line).len() > 0) by {
        assert(trim(line).take(1) == "#"@);
    }
}

/// Outside Python, a line whose text starts with `//` after its
/// indentation is a comment; in every language a line of whitespace alone
/// is blank. Either way it adds one to the total and nothing to the code.
pub proof fn law_line_comments_and_blank_lines(before: Seq<Seq<char>>, line: Seq<char>, python: bool)
    ensures
        !python && starts_with(trim(line), "//"@) ==> count_all(before.push(line), python).comments
            == count_all(before, python).comments + 1,
        trim(line).len() == 0 ==> count_all(before.push(line), python).blank == count_all(
            before,
            python,
        ).blank + 1,
        (trim(line).len() == 0 || (!python && starts_with(trim(line), "//"@))) ==> count_all(
            before.push(line),
            python,
        ).code == count_all(before, python).code,
        count_all(before.push(line), python).total == count_all(before, python).total + 1,
{
    reveal_strlit("//");
    assert(before.push(line).drop_last() =~= before);
    if starts_with(trim(line), "//"@) {
        assert(trim(line).take(2) == "//"@);
    }
}

/// Counts the lines of `source`: `(total, code, blank, comments)`.
pub fn count_lines(source: &str, language: &str) -> (r: (u64, u64, u64, u64))
    ensures
        r.0 == line_counts(source@, language@).0,
        r.1 == line_counts(source@, language@).1,
        r.2 == line_counts(source@, language@).2,
        r.3 == line_counts(source@, language@).3,
{
    let python = str_eq(language, "python");
    let all = lines_of(source);
    let ghost ls = lines(source@);
    let hash = chars_of("#");
    let slashes = chars_of("//");
    let open = chars_of("/*");
    let star = chars_of("*");
    let close = chars_of("*/");
    let mut total: u64 = 0;
    let mut code: u64 = 0;
    let mut blank: u64 = 0;
    let mut comments: u64 = 0;
    let mut in_block = false;
    for i in 0..all.len()
        invariant
            ls == lines(source@),
            all@.len() == ls.len(),
            forall|k: int| 0 <= k < all@.len() ==> #[trigger] all@[k]@ == ls[k],
            python == (language@ == "python"@),
            hash@ == "#"@,
            slashes@ == "//"@,
            open@ == "/*"@,
            star@ == "*"@,
            close@ == "*/"@,
            total == i,
            count_all(ls.take(i as int), python) == (LineState {
                total: total as nat,
                code: code as nat,
                blank: blank as nat,
                comments: comments as nat,
                in_block,
            }),
    {
        proof {
            lemma_count_all_sums(ls.take(i as int), python);
            assert(ls.take(i + 1).drop_last() =~= ls.take(i as int));
        }
        let t = trim_vec(&chars_of(&all[i]));
        total = total + 1;
        if t.len() == 0 {
            blank = blank + 1;
        } else if python && vec_starts_with(&t, &hash) {
            comments = comments + 1;
        } else if !python && (in_block || vec_starts_with(&t, &slashes) || vec_starts_with(&t, &open)
            || vec_starts_with(&t, &star)) {
            comments = comments + 1;
            let has_close = vec_contains(&t, &close);
            if vec_starts_with(&t, &open) && !has_close {
                in_block = true;
            }
            if has_close {
                in_block = false;
            }
        } else {
            code = code + 1;
        }
    }
    assert(ls.take(all@.len() as int) =~= ls);
    (total, code, blank, comments)
}

/// Languages whose lines are counted.
pub open spec fn is_source_language(l: Seq<char>) -> bool {
    l == "python"@ || l == "javascript"@ || l == "typescript"@
}

/// Files of at most 5 MiB in a source language are counted.
pub open spec fn counted_source(e: ProjectEntry) -> bool {
    &&& e.kind == EntryKind::File
    &&& e.language matches Some(l) && is_source_language(l@)
    &&& e.size <= 5 * 1024 * 1024
}

/// Whether the lines of `entry` are counted.
pub fn counts_source(entry: &ProjectEntry) -> (r: bool)
    ensures
        r == counted_source(*entry),
{
    if entry.kind != EntryKind::File || entry.size > 5 * 1024 * 1024 {
        return false;
    }
    match &entry.language {
        Some(l) => str_eq(l, "python") || str_eq(l, "javascript") || str_eq(l, "typescript"),
        None => false,
    }
}

/// The manifest a file entry is, judged by its full relative path.
pub open spec fn manifest_kind_of(e: ProjectEntry) -> Option<ManifestKind> {
    if e.kind != EntryKind::File {
        None
    } else if e.path@ == "package.json"@ {
        Some(ManifestKind::Package)
    } else if e.path@ == "requirements.txt"@ {
        Some(ManifestKind::Requirements)
    } else if e.path@ == "pyproject.toml"@ {
        Some(ManifestKind::Pyproject)
    } else {
        None
    }
}

pub fn manifest_kind(entry: &ProjectEntry) -> (r: Option<ManifestKind>)
    ensures
        r == manifest_kind_of(*entry),
{
    if entry.kind != EntryKind::File {
        None
    } else if str_eq(&entry.path, "package.json") {
        Some(ManifestKind::Package)
    } else if str_eq(&entry.path, "requirements.txt") {
        Some(ManifestKind::Requirements)
    } else if str_eq(&entry.path, "pyproject.toml") {
        Some(ManifestKind::Pyproject)
    } else {
        None
    }
}

/// Largest first; equal sizes by path.
impl SortKey for FileStatistic {
    open spec fn key_le(self, other: Self) -> bool {
        self.size > other.size || (self.size == other.size && seq_le(self.path@, other.path@))
    }

    proof fn lemma_key_le_total(a: Self, b: Self) {
        lemma_seq_le_total(a.path@, b.path@);
    }

    proof fn lemma_key_le_trans(a: Self, b: Self, c: Self) {
        if a.size == b.size && b.size == c.size {
            lemma_seq_le_trans(a.path@, b.path@, c.path@);
        }
    }

    fn key_le_exec(&self, other: &Self) -> (r: bool) {
        if self.size != other.size {
            self.size > other.size
        } else {
            compare_str(&self.path, &other.path) <= 0
        }
    }
}

/// By name, then by manifest.
impl SortKey for ManifestDependency {
    open spec fn key_le(self, other: Self) -> bool {
        seq_lt(self.name@, other.name@) || (self.name@ == other.name@ && seq_le(
            self.manifest@,
            other.manifest@,
        ))
    }

    proof fn lemma_key_le_total(a: Self, b: Self) {
        lemma_seq_lt_trichotomy(a.name@, b.name@);
        lemma_seq_le_total(a.manifest@, b.manifest@);
    }

    proof fn lemma_key_le_trans(a: Self, b: Self, c: Self) {
        lemma_seq_lt_trichotomy(a.name@, b.name@);
        lemma_seq_lt_trichotomy(b.name@, c.name@);
        if seq_lt(a.name@, b.name@) && seq_lt(b.name@, c.name@) {
            crate::order::lemma_seq_lt_trans(a.name@, b.name@, c.name@);
        }
        if a.name@ == b.name@ && b.name@ == c.name@ {
            lemma_seq_le_trans(a.manifest@, b.manifest@, c.manifest@);
        }
    }

    fn key_le_exec(&self, other: &Self) -> (r: bool) {
        let c = compare_str(&self.name, &other.name);
        if c != 0 {
            c < 0
        } else {
            compare_str(&self.manifest, &other.manifest) <= 0
        }
    }
}

pub open spec fn file_statistic(e: ProjectEntry) -> FileStatistic {
    FileStatistic { path: e.path, size: e.size, lines: 0 }
}

/// File entries as statistics with no lines counted yet.
pub open spec fn file_statistics(entries: Seq<ProjectEntry>) -> Seq<FileStatistic> {
    entries.filter_map(
        |e: ProjectEntry|
            if e.kind == EntryKind::File {
                Some(file_statistic(e))
            } else {
                None
            },
    )
}

/// Accumulates project statistics while the caller reads the files: counted
/// sources and manifests are added one at a time, then `finish` orders the
/// dependencies.
pub struct StatisticsBuilder {
    pub total_lines: u64,
    pub source_lines: u64,
    pub blank_lines: u64,
    pub comment_lines: u64,
    pub largest_files: Vec<FileStatistic>,
    pub dependencies: Vec<ManifestDependency>,
}

impl StatisticsBuilder {
    /// The builder's invariant: every line is code, blank or comment.
    pub open spec fn wf(self) -> bool {
        self.total_lines == self.source_lines + self.blank_lines + self.comment_lines
    }

    /// Starts with no lines and no dependencies, and the ten largest file
    /// entries (largest first, equal sizes by path, then in entry order).
    pub fn new(entries: &Vec<ProjectEntry>) -> (r: Self)
        ensures
            r.wf(),
            r.total_lines == 0,
            r.dependencies@.len() == 0,
            exists|ranked: Seq<FileStatistic>|
                {
                    &&& ranked.to_multiset() == file_statistics(entries@).to_multiset()
                    &&& sorted_by_key(ranked)
                    &&& keeps_ties(ranked, file_statistics(entries@))
                    &&& r.largest_files@ == ranked.take(
                        if ranked.len() < 10 {
                            ranked.len() as int
                        } else {
                            10
                        },
                    )
                },
    {
        let ghost f = |e: ProjectEntry|
            if e.kind == EntryKind::File {
                Some(file_statistic(e))
            } else {
                None
            };
        let mut files: Vec<FileStatistic> = Vec::new();
        for i in 0..entries.len()
            invariant
                f == (|e: ProjectEntry|
                    if e.kind == EntryKind::File {
                        Some(file_statistic(e))
                    } else {
                        None
                    }),
                files@ == entries@.take(i as int).filter_map(f),
        {
            proof {
                entries@.lemma_filter_map_take_succ(f, i as int);
            }
            if entries[i].kind == EntryKind::File {
                files.push(FileStatistic { path: entries[i].path.clone(), size: entries[i].size, lines: 0 });
            }
        }
        assert(entries@.take(entries@.len() as int) =~= entries@);
        let mut largest = sort_by_key(files);
        let ghost ranked = largest@;
        if largest.len() > 10 {
            largest.truncate(10);
        }
        StatisticsBuilder {
            total_lines: 0,
            source_lines: 0,
            blank_lines: 0,
            comment_lines: 0,
            largest_files: largest,
            dependencies: Vec::new(),
        }
    }

    /// Adds the lines of a counted source file, and records its line count
    /// on its entry among the largest files.
    pub fn add_source(&mut self, entry: &ProjectEntry, source: &str)
        requires
            old(self).wf(),
            old(self).total_lines + lines(source@).len() <= u64::MAX,
        ensures
            final(self).wf(),
            ({
                let language = match entry.language {
                    Some(l) => l@,
                    None => seq![],
                };
                let c = line_counts(source@, language);
                &&& final(self).total_lines == old(self).total_lines + c.0
                &&& final(self).source_lines == old(self).source_lines + c.1
                &&& final(self).blank_lines == old(self).blank_lines + c.2
                &&& final(self).comment_lines == old(self).comment_lines + c.3
                &&& final(self).largest_files@.len() == old(self).largest_files@.len()
                &&& forall|i: int|
                    0 <= i < old(self).largest_files@.len() ==> {
                        let before = old(self).largest_files@[i];
                        let after = #[trigger] final(self).largest_files@[i];
                        &&& after.path == before.path
                        &&& after.size == before.size
                        &&& after.lines == if before.path@ == entry.path@ && (forall|j: int|
                            0 <= j < i ==> old(self).largest_files@[j].path@ != entry.path@) {
                            c.0
                        } else {
                            before.lines as nat
                        }
                    }
            }),
            final(self).dependencies == old(self).dependencies,
    {
        let language: &str = match &entry.language {
            Some(l) => l.as_str(),
            None => "",
        };
        proof {
            lemma_line_counts_add_up(source@, language@);
            reveal_strlit("");
        }
        let counts = count_lines(source, language);
        self.total_lines = self.total_lines + counts.0;
        self.source_lines = self.source_lines + counts.1;
        self.blank_lines = self.blank_lines + counts.2;
        self.comment_lines = self.comment_lines + counts.3;
        let ghost before = self.largest_files@;
        let ghost totals = (self.total_lines, self.source_lines, self.blank_lines, self.comment_lines);
        let ghost deps = self.dependencies;
        let mut i: usize = 0;
        while i < self.largest_files.len()
            invariant
                self.largest_files@ == before,
                before == old(self).largest_files@,
                (self.total_lines, self.source_lines, self.blank_lines, self.comment_lines) == totals,
                self.dependencies == old(self).dependencies,
                self.wf(),
                language@ == match entry.language {
                    Some(l) => l@,
                    None => seq![],
                },
                counts.0 == line_counts(source@, language@).0,
                self.total_lines == old(self).total_lines + counts.0,
                self.source_lines == old(self).source_lines + counts.1,
                self.blank_lines == old(self).blank_lines + counts.2,
                self.comment_lines == old(self).comment_lines + counts.3,
                counts.1 == line_counts(source@, language@).1,
                counts.2 == line_counts(source@, language@).2,
                counts.3 == line_counts(source@, language@).3,
                i <= before.len(),
                forall|j: int| 0 <= j < i ==> before[j].path@ != entry.path@,
            decreases before.len() - i,
        {
            if str_eq(&self.largest_files[i].path, &entry.path) {
                let updated = FileStatistic {
                    path: self.largest_files[i].path.clone(),
                    size: self.largest_files[i].size,
                    lines: counts.0,
                };
                self.largest_files.set(i, updated);
                assert(self.largest_files@ == before.update(i as int, updated));
                assert forall|k: int| 0 <= k < before.len() implies {
                    let after = #[trigger] self.largest_files@[k];
                    &&& after.path == before[k].path
                    &&& after.size == before[k].size
                    &&& after.lines == if before[k].path@ == entry.path@ && (forall|j: int|
                        0 <= j < k ==> before[j].path@ != entry.path@) {
                        counts.0 as nat
                    } else {
                        before[k].lines as nat
                    }
                } by {
                    if k > i {
                        assert(before[i as int].path@ == entry.path@);
                    }
                }
                return;
            }
            i = i + 1;
        }
    }

    /// Adds the dependencies of a manifest, given the text read from it or
    /// the message of the read error.
    pub fn add_manifest(&mut self, kind: ManifestKind, content: Result<String, String>) -> (r: Result<(), AnalysisError>)
        ensures
            final(self).total_lines == old(self).total_lines,
            final(self).source_lines == old(self).source_lines,
            final(self).blank_lines == old(self).blank_lines,
            final(self).comment_lines == old(self).comment_lines,
            final(self).largest_files == old(self).largest_files,
            match content {
                Err(e) => r matches Err(err) && err.code == "manifestInvalid" && err.message@
                    == super::manifests::manifest_error_message(e@),
                Ok(text) => match kind {
                    ManifestKind::Requirements => r is Ok && views(final(self).dependencies@) == views(
                        old(self).dependencies@,
                    ) + super::manifests::requirements_spec(text@),
                    _ => (r is Ok ==> exists|added: Seq<DependencyView>|
                        views(final(self).dependencies@) == views(old(self).dependencies@) + added
                            && manifest_reading(kind, text@, Ok(added))) && (r matches Err(err)
                        ==> exists|e: Seq<char>|
                        manifest_reading(kind, text@, Err(e)) && err.code == "manifestInvalid"
                            && err.message@ == super::manifests::manifest_error_message(e)),
                },
            },
    {
        let text: &String = match &content {
            Ok(text) => text,
            Err(message) => {
                return Err(manifest_error(message));
            },
        };
        let added = match kind {
            ManifestKind::Package => package_dependencies(text),
            ManifestKind::Requirements => Ok(requirements_dependencies(text)),
            ManifestKind::Pyproject => pyproject_dependencies(text),
        };
        match added {
            Ok(mut deps) => {
                let ghost before = views(self.dependencies@);
                let ghost new_views = views(deps@);
                self.dependencies.append(&mut deps);
                assert(views(self.dependencies@) =~= before + new_views);
                proof {
                    if kind == ManifestKind::Pyproject {
                        if super::manifests::toml_array_items(text@, "project"@, "dependencies"@) is Ok
                            && super::manifests::toml_array_items(
                            text@,
                            "project"@,
                            "dependencies"@,
                        )->Ok_0 is None {
                            assert(new_views =~= seq![]);
                        }
                    }
                }
                assert(manifest_reading(kind, text@, Ok(new_views)));
                Ok(())
            },
            Err(e) => {
                proof {
                    if kind == ManifestKind::Package {
                        let w = super::manifests::json_object_sections(
                            text@,
                            super::manifests::package_keys(),
                        )->Err_0;
                        assert(manifest_reading(kind, text@, Err(w)));
                    } else {
                        let w = super::manifests::toml_array_items(
                            text@,
                            "project"@,
                            "dependencies"@,
                        )->Err_0;
                        assert(manifest_reading(kind, text@, Err(w)));
                    }
                }
                Err(e)
            },
        }
    }

    /// The statistics, with the dependencies ordered by name, then manifest;
    /// dependencies equal in both keep the order they were added in.
    pub fn finish(self) -> (r: ProjectStatistics)
        requires
            self.wf(),
        ensures
            r.total_lines == self.total_lines,
            r.source_lines == self.source_lines,
            r.blank_lines == self.blank_lines,
            r.comment_lines == self.comment_lines,
            r.total_lines == r.source_lines + r.blank_lines + r.comment_lines,
            r.largest_files == self.largest_files,
            sorted_by_key(r.dependencies@),
            r.dependencies@.to_multiset() == self.dependencies@.to_multiset(),
            keeps_ties(r.dependencies@, self.dependencies@),
    {
        let dependencies = sort_by_key(self.dependencies);
        ProjectStatistics {
            total_lines: self.total_lines,
            source_lines: self.source_lines,
            blank_lines: self.blank_lines,
            comment_lines: self.comment_lines,
            largest_files: self.largest_files,
            dependencies,
        }
    }
}

/// What reading a JSON or TOML manifest gives: the error message, or the
/// dependencies added.
pub open spec fn manifest_reading(kind: ManifestKind, text: Seq<char>, outcome: Result<Seq<DependencyView>, Seq<char>>) -> bool {
    match kind {
        ManifestKind::Package => match super::manifests::json_object_sections(
            text,
            super::manifests::package_keys(),
        ) {
            Err(e) => outcome == Err::<Seq<DependencyView>, Seq<char>>(e),
            Ok(sections) => outcome == Ok::<Seq<DependencyView>, Seq<char>>(
                super::manifests::section_deps(sections[0], super::types::DependencyScope::Runtime)
                    + super::manifests::section_deps(
                    sections[1],
                    super::types::DependencyScope::Development,
                ) + super::manifests::section_deps(
                    sections[2],
                    super::types::DependencyScope::Optional,
                ),
            ),
        },
        ManifestKind::Pyproject => match super::manifests::toml_array_items(
            text,
            "project"@,
            "dependencies"@,
        ) {
            Err(e) => outcome == Err::<Seq<DependencyView>, Seq<char>>(e),
            Ok(None) => outcome == Ok::<Seq<DependencyView>, Seq<char>>(seq![]),
            Ok(Some(items)) => outcome == Ok::<Seq<DependencyView>, Seq<char>>(
                super::manifests::pyproject_items_spec(items),
            ),
        },
        ManifestKind::Requirements => outcome == Ok::<Seq<DependencyView>, Seq<char>>(
            super::manifests::requirements_spec(text),
        ),
    }
}

} // verus!
