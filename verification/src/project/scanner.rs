//! The decisions of a project scan: which walked entries become files and
//! directories, their languages, the totals, and the final snapshot.
//!
//! The walk itself reads the file system, so the caller drives it: each
//! walked entry goes to `ScanState::step`, and `ScanState::finish` gives
//! the snapshot.
use vstd::prelude::*;

use super::paths::{
    component_views, extension_of, file_name_of, join, join_components, lowercase_extension,
    parent_of, parent_path,
};
use super::types::{EntryKind, LanguageTotal, ProjectEntry, ProjectSnapshot, ScanError, ScanProgress};
use crate::order::{
    compare_str, lemma_seq_le_total, lemma_seq_le_trans, seq_le, seq_lt,
    keeps_ties, sort_by_key, sorted_by_key, SortKey,
};
use crate::text::{ascii_lower, str_eq, str_in_list};

verus! {

pub open spec fn is_one_of(e: Seq<char>, list: Seq<Seq<char>>) -> bool {
    exists|i: int| 0 <= i < list.len() && list[i] == e
}

/// The language of a file, judged by the lowercase extension of its name.
pub open spec fn language_of(name: Seq<char>) -> Option<Seq<char>> {
    match extension_of(name) {
        None => None,
        Some(x) => {
            let e = ascii_lower(x);
            if e == "py"@ || e == "pyi"@ {
                Some("python"@)
            } else if e == "js"@ || e == "jsx"@ || e == "mjs"@ || e == "cjs"@ {
                Some("javascript"@)
            } else if e == "ts"@ || e == "tsx"@ || e == "mts"@ || e == "cts"@ {
                Some("typescript"@)
            } else if e == "json"@ {
                Some("json"@)
            } else if e == "css"@ || e == "scss"@ || e == "sass"@ || e == "less"@ {
                Some("css"@)
            } else if e == "html"@ || e == "htm"@ {
                Some("html"@)
            } else if e == "md"@ || e == "mdx"@ {
                Some("markdown"@)
            } else if e == "rs"@ {
                Some("rust"@)
            } else if e == "toml"@ {
                Some("toml"@)
            } else if e == "yaml"@ || e == "yml"@ {
                Some("yaml"@)
            } else {
                None
            }
        },
    }
}

/// Detects the language of a file from its name.
pub fn detect_language(name: &str) -> (r: Option<&'static str>)
    ensures
        match r {
            Some(l) => language_of(name@) == Some(l@),
            None => language_of(name@) is None,
        },
{
    let e = match lowercase_extension(name) {
        Some(e) => e,
        None => {
            return None;
        },
    };
    if str_eq(&e, "py") || str_eq(&e, "pyi") {
        Some("python")
    } else if str_eq(&e, "js") || str_eq(&e, "jsx") || str_eq(&e, "mjs") || str_eq(&e, "cjs") {
        Some("javascript")
    } else if str_eq(&e, "ts") || str_eq(&e, "tsx") || str_eq(&e, "mts") || str_eq(&e, "cts") {
        Some("typescript")
    } else if str_eq(&e, "json") {
        Some("json")
    } else if str_eq(&e, "css") || str_eq(&e, "scss") || str_eq(&e, "sass") || str_eq(&e, "less") {
        Some("css")
    } else if str_eq(&e, "html") || str_eq(&e, "htm") {
        Some("html")
    } else if str_eq(&e, "md") || str_eq(&e, "mdx") {
        Some("markdown")
    } else if str_eq(&e, "rs") {
        Some("rust")
    } else if str_eq(&e, "toml") {
        Some("toml")
    } else if str_eq(&e, "yaml") || str_eq(&e, "yml") {
        Some("yaml")
    } else {
        None
    }
}

/// The scanner gives every file that a language parser reads the language
/// of that parser: when the extension of a path (in any letter case) selects
/// a parser, the path has a file name and the language detected for it is
/// the parser's identifier.
pub proof fn law_detected_language_is_the_parsers(path: Seq<char>)
    ensures
        crate::languages::language_of_path(path) matches Some(l) ==> (file_name_of(path) matches Some(
            n,
        ) && language_of(n) == Some(l.id_of())),
{
}

/// A file name whose extension is `js` in any letter case is JavaScript.
pub proof fn law_js_files_are_javascript(name: Seq<char>)
    ensures
        (extension_of(name) matches Some(x) && ascii_lower(x) == "js"@) ==> language_of(name) == Some(
            "javascript"@,
        ),
{
    reveal_strlit("js");
    reveal_strlit("py");
    reveal_strlit("pyi");
    assert("js"@[0] != "py"@[0]);
    assert("js"@.len() != "pyi"@.len());
}

/// Extensions of formats that are never read as text.
pub open spec fn binary_extensions() -> Seq<Seq<char>> {
    seq![
        "7z"@, "a"@, "avi"@, "bin"@, "bmp"@, "class"@, "dll"@, "dylib"@, "eot"@, "exe"@, "gif"@,
        "gz"@, "ico"@, "jar"@, "jpeg"@, "jpg"@, "lib"@, "lockb"@, "mov"@, "mp3"@, "mp4"@, "o"@,
        "otf"@, "pdf"@, "png"@, "pyc"@, "so"@, "tar"@, "ttf"@, "wasm"@, "wav"@, "webm"@, "webp"@,
        "woff"@, "woff2"@, "zip"@,
    ]
}

/// Whether a file name has the extension of a known binary format.
pub open spec fn known_binary(name: Seq<char>) -> bool {
    match extension_of(name) {
        Some(x) => is_one_of(ascii_lower(x), binary_extensions()),
        None => false,
    }
}

pub fn is_known_binary(name: &str) -> (r: bool)
    ensures
        r == known_binary(name@),
{
    let e = match lowercase_extension(name) {
        Some(e) => e,
        None => {
            return false;
        },
    };
    let list: Vec<&str> = vec![
        "7z", "a", "avi", "bin", "bmp", "class", "dll", "dylib", "eot", "exe", "gif", "gz", "ico",
        "jar", "jpeg", "jpg", "lib", "lockb", "mov", "mp3", "mp4", "o", "otf", "pdf", "png", "pyc",
        "so", "tar", "ttf", "wasm", "wav", "webm", "webp", "woff", "woff2", "zip",
    ];
    let r = str_in_list(&e, &list);
    proof {
        let views = list@.map_values(|s: &str| s@);
        assert(views =~= binary_extensions());
        if r {
            let i = choose|i: int| 0 <= i < list@.len() && #[trigger] list@[i]@ == e@;
            assert(views[i] == e@);
        } else {
            assert forall|i: int| 0 <= i < binary_extensions().len() implies binary_extensions()[i]
                != e@ by {
                assert(views[i] == list@[i]@);
            }
        }
    }
    r
}

/// Directories that are never walked into.
pub open spec fn excluded_directories() -> Seq<Seq<char>> {
    seq![
        ".git"@, ".hg"@, ".svn"@, ".next"@, ".nuxt"@, ".pytest_cache"@, ".tox"@, ".venv"@,
        "__pycache__"@, "build"@, "coverage"@, "dist"@, "node_modules"@, "target"@, "vendor"@,
    ]
}

/// Whether the walk descends into an entry of this name (a name that is not
/// UTF-8 is always walked).
pub fn is_walked(name: Option<&str>) -> (r: bool)
    ensures
        r == match name {
            Some(n) => !is_one_of(n@, excluded_directories()),
            None => true,
        },
{
    let n = match name {
        Some(n) => n,
        None => {
            return true;
        },
    };
    let list: Vec<&str> = vec![
        ".git", ".hg", ".svn", ".next", ".nuxt", ".pytest_cache", ".tox", ".venv", "__pycache__",
        "build", "coverage", "dist", "node_modules", "target", "vendor",
    ];
    let found = str_in_list(n, &list);
    proof {
        let views = list@.map_values(|s: &str| s@);
        assert(views =~= excluded_directories());
        if found {
            let i = choose|i: int| 0 <= i < list@.len() && #[trigger] list@[i]@ == n@;
            assert(views[i] == n@);
        } else {
            assert forall|i: int| 0 <= i < excluded_directories().len() implies excluded_directories()[i]
                != n@ by {
                assert(views[i] == list@[i]@);
            }
        }
    }
    !found
}

/// The type of a walked entry.
#[derive(Debug, Clone, Copy, PartialEq, Eq, Structural)]
pub enum WalkKind {
    Directory,
    File,
    Other,
}

/// What the scan reads of one walked entry: whether it is the root or a
/// symbolic link, its path relative to the root by components (`None` when
/// that path is not UTF-8), its file name (`None` when not UTF-8), its type,
/// and its size (`None` when its metadata could not be read).
pub struct WalkEntry {
    pub is_root: bool,
    pub is_symlink: bool,
    pub components: Option<Vec<String>>,
    pub name: Option<String>,
    pub kind: WalkKind,
    pub size: Option<u64>,
}

/// One result of the walk.
pub enum WalkItem {
    Failed,
    Entry(WalkEntry),
}

/// How a walked entry is counted.
pub enum Visit {
    Skipped,
    Ignored,
    Directory(Seq<Seq<char>>),
    File { parts: Seq<Seq<char>>, name: Seq<char>, size: u64, language: Option<Seq<char>> },
}

/// Failures and entries without a UTF-8 path or name, binary files and files
/// whose size is unknown are skipped; the root, links and special files are
/// ignored; everything else is a directory or a file.
pub open spec fn visit_of(item: WalkItem) -> Visit {
    match item {
        WalkItem::Failed => Visit::Skipped,
        WalkItem::Entry(e) => if e.is_root || e.is_symlink {
            Visit::Ignored
        } else if e.components is None || e.name is None {
            Visit::Skipped
        } else if e.kind == WalkKind::Directory {
            Visit::Directory(component_views(e.components->0@))
        } else if e.kind != WalkKind::File {
            Visit::Ignored
        } else if known_binary(e.name->0@) {
            Visit::Skipped
        } else if e.size is None {
            Visit::Skipped
        } else {
            Visit::File {
                parts: component_views(e.components->0@),
                name: e.name->0@,
                size: e.size->0,
                language: language_of(e.name->0@),
            }
        },
    }
}

/// Number of files of a language.
pub open spec fn language_file_count(files: Seq<ProjectEntry>, id: Seq<char>) -> nat
    decreases files.len(),
{
    if files.len() == 0 {
        0
    } else {
        language_file_count(files.drop_last(), id) + if files.last().language matches Some(l)
            && l@ == id {
            1nat
        } else {
            0nat
        }
    }
}

/// Bytes of the files of a language.
pub open spec fn language_bytes(files: Seq<ProjectEntry>, id: Seq<char>) -> nat
    decreases files.len(),
{
    if files.len() == 0 {
        0
    } else {
        language_bytes(files.drop_last(), id) + if files.last().language matches Some(l) && l@
            == id {
            files.last().size as nat
        } else {
            0nat
        }
    }
}

pub open spec fn total_size(files: Seq<ProjectEntry>) -> nat
    decreases files.len(),
{
    if files.len() == 0 {
        0
    } else {
        total_size(files.drop_last()) + files.last().size as nat
    }
}

/// The state of a running scan.
pub struct ScanState {
    pub scan_id: String,
    pub directories: Vec<Vec<String>>,
    pub files: Vec<ProjectEntry>,
    pub language_totals: Vec<LanguageTotal>,
    pub file_count: u64,
    pub total_bytes: u64,
    pub skipped_count: u64,
}

impl ScanState {
    /// The totals agree with the files seen: one total per language that
    /// some file has, with that language's file count (never zero) and
    /// bytes.
    pub open spec fn wf(self) -> bool {
        &&& self.file_count == self.files@.len()
        &&& self.total_bytes == total_size(self.files@)
        &&& forall|i: int|
            0 <= i < self.language_totals@.len() ==> {
                let t = #[trigger] self.language_totals@[i];
                &&& t.file_count == language_file_count(self.files@, t.id@)
                &&& t.total_bytes == language_bytes(self.files@, t.id@)
                &&& t.file_count > 0
            }
        &&& forall|i: int, j: int|
            0 <= i < j < self.language_totals@.len() ==> (#[trigger] self.language_totals@[i]).id@
                != (#[trigger] self.language_totals@[j]).id@
        &&& forall|k: int|
            0 <= k < self.files@.len() ==> ((#[trigger] self.files@[k]).language matches Some(l)
                ==> exists|i: int|
                0 <= i < self.language_totals@.len() && (#[trigger] self.language_totals@[i]).id@
                    == l@)
        &&& forall|k: int|
            0 <= k < self.files@.len() ==> (#[trigger] self.files@[k]).kind == EntryKind::File
    }

    pub fn new(scan_id: String) -> (r: Self)
        ensures
            r.wf(),
            r.scan_id == scan_id,
            r.directories@.len() == 0,
            r.files@.len() == 0,
            r.language_totals@.len() == 0,
            r.skipped_count == 0,
    {
        ScanState {
            scan_id,
            directories: Vec::new(),
            files: Vec::new(),
            language_totals: Vec::new(),
            file_count: 0,
            total_bytes: 0,
            skipped_count: 0,
        }
    }

    /// Handles one walked entry. A cancelled scan stops with `cancelled`.
    /// Otherwise the entry is counted as `visit_of` says; a file is added
    /// with its language, and progress is reported for the first file and
    /// every 250th.
    pub fn step(&mut self, cancelled: bool, item: WalkItem) -> (r: Result<Option<ScanProgress>, ScanError>)
        requires
            old(self).wf(),
            old(self).file_count < u64::MAX,
            old(self).skipped_count < u64::MAX,
            item matches WalkItem::Entry(e) ==> old(self).total_bytes + match e.size {
                Some(s) => s as int,
                None => 0,
            } <= u64::MAX,
        ensures
            final(self).wf(),
            final(self).scan_id == old(self).scan_id,
            cancelled ==> (r matches Err(e) && e.code@ == "cancelled"@ && e.message@
                == "Project scan was cancelled"@ && *final(self) == *old(self)),
            !cancelled ==> r is Ok && match visit_of(item) {
                Visit::Skipped => final(self).skipped_count == old(self).skipped_count + 1
                    && final(self).files == old(self).files && final(self).directories
                    == old(self).directories && r == Ok::<Option<ScanProgress>, ScanError>(None),
                Visit::Ignored => *final(self) == *old(self) && r == Ok::<
                    Option<ScanProgress>,
                    ScanError,
                >(None),
                Visit::Directory(parts) => final(self).skipped_count == old(self).skipped_count
                    && final(self).files == old(self).files && component_views(
                    final(self).directories@.last()@,
                ) == parts && final(self).directories@.drop_last() == old(self).directories@
                    && final(self).directories@.len() == old(self).directories@.len() + 1 && r
                    == Ok::<Option<ScanProgress>, ScanError>(None),
                Visit::File { parts, name, size, language } => {
                    let f = final(self).files@.last();
                    &&& final(self).skipped_count == old(self).skipped_count
                    &&& final(self).directories == old(self).directories
                    &&& final(self).files@.drop_last() == old(self).files@
                    &&& final(self).files@.len() == old(self).files@.len() + 1
                    &&& f.path@ == join(parts)
                    &&& f.name@ == name
                    &&& f.parent.is_some() == parent_of(parts).is_some()
                    &&& (f.parent matches Some(p) ==> parent_of(parts) == Some(p@))
                    &&& f.kind == EntryKind::File
                    &&& f.size == size
                    &&& f.language.is_some() == language.is_some()
                    &&& (f.language matches Some(l) ==> language == Some(l@))
                    &&& match r {
                        Ok(Some(p)) => (final(self).file_count == 1 || final(self).file_count % 250
                            == 0) && p.scan_id == old(self).scan_id && p.files_scanned
                            == final(self).file_count && p.current_path@ == join(parts),
                        _ => !(final(self).file_count == 1 || final(self).file_count % 250 == 0),
                    }
                },
            },
    {
        if cancelled {
            return Err(ScanError::cancelled());
        }
        let entry = match item {
            WalkItem::Failed => {
                self.skipped_count = self.skipped_count + 1;
                return Ok(None);
            },
            WalkItem::Entry(entry) => entry,
        };
        if entry.is_root || entry.is_symlink {
            return Ok(None);
        }
        let parts = match entry.components {
            Some(parts) => parts,
            None => {
                self.skipped_count = self.skipped_count + 1;
                return Ok(None);
            },
        };
        let name = match entry.name {
            Some(name) => name,
            None => {
                self.skipped_count = self.skipped_count + 1;
                return Ok(None);
            },
        };
        if entry.kind == WalkKind::Directory {
            self.directories.push(parts);
            return Ok(None);
        }
        if entry.kind != WalkKind::File {
            return Ok(None);
        }
        if is_known_binary(&name) {
            self.skipped_count = self.skipped_count + 1;
            return Ok(None);
        }
        let size = match entry.size {
            Some(size) => size,
            None => {
                self.skipped_count = self.skipped_count + 1;
                return Ok(None);
            },
        };
        let language = detect_language(&name);
        let path = join_components(&parts);
        let parent = parent_path(&parts);
        let file = ProjectEntry {
            path,
            name,
            parent,
            kind: EntryKind::File,
            size,
            language: match language {
                Some(l) => Some(l.to_owned()),
                None => None,
            },
        };
        self.add_file(file);
        let progress = if self.file_count == 1 || self.file_count % 250 == 0 {
            Some(
                ScanProgress {
                    scan_id: self.scan_id.clone(),
                    files_scanned: self.file_count,
                    current_path: join_components(&parts),
                },
            )
        } else {
            None
        };
        Ok(progress)
    }

    /// Records a file and adds it to the totals.
    fn add_file(&mut self, file: ProjectEntry)
        requires
            old(self).wf(),
            old(self).file_count < u64::MAX,
            old(self).total_bytes + file.size <= u64::MAX,
            file.kind == EntryKind::File,
        ensures
            final(self).wf(),
            final(self).files@ == old(self).files@.push(file),
            final(self).scan_id == old(self).scan_id,
            final(self).directories == old(self).directories,
            final(self).skipped_count == old(self).skipped_count,
    {
        let ghost old_files = self.files@;
        let ghost new_files = old_files.push(file);
        assert(new_files.drop_last() =~= old_files);
        let ghost old_totals = self.language_totals@;
        let mut found: bool = false;
        if let Some(l) = &file.language {
            let mut i: usize = 0;
            while i < self.language_totals.len() && !str_eq(&self.language_totals[i].id, l)
                invariant
                    self.language_totals@.len() == old_totals.len(),
                    i <= old_totals.len(),
                    forall|j: int| 0 <= j < i ==> old_totals[j].id@ != l@,
                    self.language_totals@ == old_totals,
                decreases old_totals.len() - i,
            {
                i = i + 1;
            }
            if i < self.language_totals.len() {
                assert(old_totals[i as int].file_count == language_file_count(old_files, l@));
                assert(old_totals[i as int].file_count <= old_files.len()) by {
                    lemma_language_bounds(old_files, l@);
                }
                assert(old_totals[i as int].total_bytes <= total_size(old_files)) by {
                    lemma_language_bounds(old_files, l@);
                }
                let t = LanguageTotal {
                    id: self.language_totals[i].id.clone(),
                    file_count: self.language_totals[i].file_count + 1,
                    total_bytes: self.language_totals[i].total_bytes + file.size,
                };
                self.language_totals.set(i, t);
            } else {
                self.language_totals.push(
                    LanguageTotal { id: l.clone(), file_count: 1, total_bytes: file.size },
                );
                proof {
                    lemma_language_absent(old_files, l@);
                }
            }
        }
        self.file_count = self.file_count + 1;
        self.total_bytes = self.total_bytes + file.size;
        self.files.push(file);
        proof {
            assert(self.files@ == new_files);
            assert forall|i: int| 0 <= i < self.language_totals@.len() implies {
                let t = #[trigger] self.language_totals@[i];
                &&& t.file_count == language_file_count(new_files, t.id@)
                &&& t.total_bytes == language_bytes(new_files, t.id@)
            } by {}
            assert forall|k: int| 0 <= k < new_files.len() implies ((#[trigger] new_files[k]).language matches Some(l)
                ==> exists|i: int|
                0 <= i < self.language_totals@.len() && (#[trigger] self.language_totals@[i]).id@
                    == l@) by {
                if k < old_files.len() {
                    assert(new_files[k] == old_files[k]);
                    if old_files[k].language is Some {
                        let i = choose|i: int|
                            0 <= i < old_totals.len() && (#[trigger] old_totals[i]).id@
                                == old_files[k].language->0@;
                        assert(self.language_totals@[i].id@ == old_totals[i].id@);
                    }
                } else if file.language is Some {
                    let l = file.language->0;
                    if exists|i: int| 0 <= i < old_totals.len() && (#[trigger] old_totals[i]).id@ == l@ {
                        let i = choose|i: int|
                            0 <= i < old_totals.len() && (#[trigger] old_totals[i]).id@ == l@;
                        assert(self.language_totals@[i].id@ == old_totals[i].id@);
                    } else {
                        assert(self.language_totals@[old_totals.len() as int].id@ == l@);
                    }
                }
            }
        }
    }

    /// The snapshot: one entry per distinct directory (named by its last
    /// component) and every file, ordered by path; the language totals
    /// ordered by language. `name` is the root folder's name, if it has one.
    pub fn finish(self, root: String, name: Option<String>) -> (r: ProjectSnapshot)
        requires
            self.wf(),
        ensures
            r.scan_id == self.scan_id,
            r.root == root,
            r.name@ == match name {
                Some(n) => n@,
                None => "Project"@,
            },
            r.file_count == self.file_count,
            r.total_bytes == self.total_bytes,
            r.skipped_count == self.skipped_count,
            sorted_by_key(r.entries@),
            exists|dirs: Seq<ProjectEntry>|
                {
                    &&& directory_entries_of(self.directories@, dirs)
                    &&& r.entries@.to_multiset() == (dirs + self.files@).to_multiset()
                    &&& keeps_ties(r.entries@, dirs + self.files@)
                },
            sorted_by_key(r.languages@),
            r.languages@.to_multiset() == self.language_totals@.to_multiset(),
            keeps_ties(r.languages@, self.language_totals@),
            forall|i: int| 0 <= i < r.languages@.len() ==> (#[trigger] r.languages@[i]).file_count > 0,
    {
        let mut paths: Vec<String> = Vec::new();
        for i in 0..self.directories.len()
            invariant
                paths@.len() == i,
                forall|k: int|
                    0 <= k < i ==> (#[trigger] paths@[k])@ == join(
                        component_views(self.directories@[k]@),
                    ),
        {
            paths.push(join_components(&self.directories[i]));
        }
        let dirs = directory_entries(&self.directories, paths);
        let ghost dir_seq = dirs@;
        let mut entries = dirs;
        let mut files = self.files;
        entries.append(&mut files);
        let entries = sort_by_key(entries);
        let ghost totals = self.language_totals@;
        let languages = sort_by_key(self.language_totals);
        proof {
            assert forall|i: int| 0 <= i < languages@.len() implies (#[trigger] languages@[i]).file_count
                > 0 by {
                let l = languages@[i];
                vstd::seq_lib::to_multiset_contains(languages@, l);
                vstd::seq_lib::to_multiset_contains(totals, l);
                assert(languages@.contains(l));
                assert(totals.contains(l));
                let j = choose|j: int| 0 <= j < totals.len() && totals[j] == l;
                assert(totals[j].file_count > 0);
            }
        }
        ProjectSnapshot {
            scan_id: self.scan_id,
            root,
            name: match name {
                Some(n) => n,
                None => "Project".to_owned(),
            },
            entries,
            languages,
            file_count: self.file_count,
            total_bytes: self.total_bytes,
            skipped_count: self.skipped_count,
        }
    }
}

proof fn lemma_language_bounds(files: Seq<ProjectEntry>, id: Seq<char>)
    ensures
        language_file_count(files, id) <= files.len(),
        language_bytes(files, id) <= total_size(files),
    decreases files.len(),
{
    if files.len() > 0 {
        lemma_language_bounds(files.drop_last(), id);
    }
}

proof fn lemma_language_absent(files: Seq<ProjectEntry>, id: Seq<char>)
    requires
        forall|k: int|
            0 <= k < files.len() ==> !((#[trigger] files[k]).language matches Some(l) && l@ == id),
    ensures
        language_file_count(files, id) == 0,
        language_bytes(files, id) == 0,
    decreases files.len(),
{
    if files.len() > 0 {
        assert(files.last() == files[files.len() - 1]);
        assert forall|k: int| 0 <= k < files.len() - 1 implies !((
        #[trigger] files.drop_last()[k]).language matches Some(l) && l@ == id) by {
            assert(files.drop_last()[k] == files[k]);
        }
        lemma_language_absent(files.drop_last(), id);
    }
}

/// The entry of a directory.
pub open spec fn directory_entry_of(path: Seq<char>, parts: Seq<Seq<char>>, e: ProjectEntry) -> bool {
    &&& e.path@ == path
    &&& parts.len() > 0 ==> e.name@ == parts.last()
    &&& e.parent.is_some() == parent_of(parts).is_some()
    &&& (e.parent matches Some(p) ==> parent_of(parts) == Some(p@))
    &&& e.kind == EntryKind::Directory
    &&& e.size == 0
    &&& e.language is None
}

/// `dirs` holds one entry for each distinct directory path, in path order.
pub open spec fn directory_entries_of(directories: Seq<Vec<String>>, dirs: Seq<ProjectEntry>) -> bool {
    &&& forall|i: int, j: int| 0 <= i < j < dirs.len() ==> seq_lt(#[trigger] dirs[i].path@, #[trigger] dirs[j].path@)
    &&& forall|i: int|
        0 <= i < dirs.len() ==> exists|k: int|
            0 <= k < directories.len() && directory_entry_of(
                join(component_views(directories[k]@)),
                component_views(directories[k]@),
                #[trigger] dirs[i],
            )
    &&& forall|k: int|
        0 <= k < directories.len() ==> exists|i: int|
            0 <= i < dirs.len() && (#[trigger] dirs[i]).path@ == join(
                component_views(#[trigger] directories[k]@),
            )
}

/// Entries of the distinct directories, ordered by path.
fn directory_entries(directories: &Vec<Vec<String>>, paths: Vec<String>) -> (r: Vec<ProjectEntry>)
    requires
        paths@.len() == directories@.len(),
        forall|k: int|
            0 <= k < paths@.len() ==> (#[trigger] paths@[k])@ == join(
                component_views(directories@[k]@),
            ),
    ensures
        directory_entries_of(directories@, r@),
{
    let mut keyed: Vec<DirectoryKey> = Vec::new();
    for i in 0..paths.len()
        invariant
            paths@.len() == directories@.len(),
            keyed@.len() == i,
            forall|k: int|
                0 <= k < i ==> (#[trigger] keyed@[k]).index < directories@.len() && keyed@[k].path@
                    == paths@[keyed@[k].index as int]@,
            forall|k: int| 0 <= k < i ==> (#[trigger] keyed@[k]).index == k,
    {
        keyed.push(DirectoryKey { path: paths[i].clone(), index: i });
    }
    let ghost unsorted = keyed@;
    let sorted = sort_by_key(keyed);
    proof {
        assert forall|k: int| 0 <= k < sorted@.len() implies (#[trigger] sorted@[k]).index
            < directories@.len() && sorted@[k].path@ == paths@[sorted@[k].index as int]@ by {
            let x = sorted@[k];
            assert(sorted@.contains(x));
            vstd::seq_lib::to_multiset_contains(sorted@, x);
            vstd::seq_lib::to_multiset_contains(unsorted, x);
            assert(sorted@.to_multiset().count(x) > 0);
            assert(unsorted.to_multiset().count(x) > 0);
            assert(unsorted.contains(x));
        }
    }
    let mut out: Vec<ProjectEntry> = Vec::new();
    let mut i: usize = 0;
    while i < sorted.len()
        invariant
            i <= sorted@.len(),
            sorted_by_key(sorted@),
            forall|k: int|
                0 <= k < sorted@.len() ==> (#[trigger] sorted@[k]).index < directories@.len()
                    && sorted@[k].path@ == paths@[sorted@[k].index as int]@,
            paths@.len() == directories@.len(),
            forall|k: int|
                0 <= k < paths@.len() ==> (#[trigger] paths@[k])@ == join(
                    component_views(directories@[k]@),
                ),
            forall|a: int, b: int| 0 <= a < b < out@.len() ==> seq_lt(#[trigger] out@[a].path@, #[trigger] out@[b].path@),
            out@.len() > 0 ==> i > 0 && out@.last().path@ == sorted@[i - 1].path@,
            out@.len() == 0 ==> i == 0,
            forall|a: int|
                0 <= a < out@.len() ==> exists|k: int|
                    0 <= k < directories@.len() && directory_entry_of(
                        join(component_views(directories@[k]@)),
                        component_views(directories@[k]@),
                        #[trigger] out@[a],
                    ),
            forall|k: int| 0 <= k < i ==> exists|a: int| 0 <= a < out@.len() && (#[trigger] out@[a]).path@ == (#[trigger] sorted@[k]).path@,
        decreases sorted@.len() - i,
    {
        let ghost old_out = out@;
        let same = out.len() > 0 && str_eq(&out[out.len() - 1].path, &sorted[i].path);
        if !same {
            let index = sorted[i].index;
            let parts = &directories[index];
            let name = if parts.len() > 0 {
                parts[parts.len() - 1].clone()
            } else {
                String::new()
            };
            let e = ProjectEntry {
                path: sorted[i].path.clone(),
                name,
                parent: parent_path(parts),
                kind: EntryKind::Directory,
                size: 0,
                language: None,
            };
            proof {
                if out@.len() > 0 {
                    let prev = sorted@[i - 1];
                    assert(prev.key_le(sorted@[i as int]));
                    assert(seq_lt(out@.last().path@, e.path@));
                    assert forall|a: int| 0 <= a < out@.len() implies seq_lt(out@[a].path@, e.path@) by {
                        if a < out@.len() - 1 {
                            crate::order::lemma_seq_lt_trans(out@[a].path@, out@.last().path@, e.path@);
                        }
                    }
                }
                assert(component_views(parts@).len() > 0 ==> e.name@ == component_views(parts@).last());
            }
            out.push(e);
        }
        proof {
            assert forall|k: int| 0 <= k < i + 1 implies exists|a: int| 0 <= a < out@.len() && (#[trigger] out@[a]).path@ == (#[trigger] sorted@[k]).path@ by {
                if k == i {
                    assert(out@[out@.len() - 1].path@ == sorted@[k].path@);
                } else {
                    let a = choose|a: int| 0 <= a < old_out.len() && (#[trigger] old_out[a]).path@ == sorted@[k].path@;
                    assert(out@[a] == old_out[a]);
                }
            }
        }
        i = i + 1;
    }
    proof {
        assert forall|k: int| 0 <= k < directories@.len() implies exists|a: int|
            0 <= a < out@.len() && (#[trigger] out@[a]).path@ == join(
                component_views(#[trigger] directories@[k]@),
            ) by {
            let x = unsorted[k];
            assert(unsorted.contains(x));
            vstd::seq_lib::to_multiset_contains(sorted@, x);
            vstd::seq_lib::to_multiset_contains(unsorted, x);
            assert(unsorted.to_multiset().count(x) > 0);
            assert(sorted@.to_multiset().count(x) > 0);
            assert(sorted@.contains(x));
            let j = choose|j: int| 0 <= j < sorted@.len() && sorted@[j] == x;
            assert(sorted@[j].path@ == paths@[k]@);
        }
    }
    out
}

/// A directory path with the position of its components.
pub struct DirectoryKey {
    pub path: String,
    pub index: usize,
}

impl SortKey for DirectoryKey {
    open spec fn key_le(self, other: Self) -> bool {
        seq_le(self.path@, other.path@)
    }

    proof fn lemma_key_le_total(a: Self, b: Self) {
        lemma_seq_le_total(a.path@, b.path@);
    }

    proof fn lemma_key_le_trans(a: Self, b: Self, c: Self) {
        lemma_seq_le_trans(a.path@, b.path@, c.path@);
    }

    fn key_le_exec(&self, other: &Self) -> (r: bool) {
        compare_str(&self.path, &other.path) <= 0
    }
}

/// Entries are ordered by path.
impl SortKey for ProjectEntry {
    open spec fn key_le(self, other: Self) -> bool {
        seq_le(self.path@, other.path@)
    }

    proof fn lemma_key_le_total(a: Self, b: Self) {
        lemma_seq_le_total(a.path@, b.path@);
    }

    proof fn lemma_key_le_trans(a: Self, b: Self, c: Self) {
        lemma_seq_le_trans(a.path@, b.path@, c.path@);
    }

    fn key_le_exec(&self, other: &Self) -> (r: bool) {
        compare_str(&self.path, &other.path) <= 0
    }
}

/// Totals are ordered by language.
impl SortKey for LanguageTotal {
    open spec fn key_le(self, other: Self) -> bool {
        seq_le(self.id@, other.id@)
    }

    proof fn lemma_key_le_total(a: Self, b: Self) {
        lemma_seq_le_total(a.id@, b.id@);
    }

    proof fn lemma_key_le_trans(a: Self, b: Self, c: Self) {
        lemma_seq_le_trans(a.id@, b.id@, c.id@);
    }

    fn key_le_exec(&self, other: &Self) -> (r: bool) {
        compare_str(&self.id, &other.id) <= 0
    }
}

} // verus!
