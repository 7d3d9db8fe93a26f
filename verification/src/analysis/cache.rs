//! Session state: the open project, analysed files and search indexes.
//!
//! Only one project is open at a time; opening one drops everything that
//! was kept for the previous session.
use vstd::prelude::*;

use crate::project::types::ProjectEntry;
use crate::search::types::{ProjectIndex, ProjectIndexView};
use crate::text::str_eq;

use super::types::{FileAnalysis, FileAnalysisView};

verus! {

/// The root and scan inventory of an open project.
pub struct ProjectRecord {
    pub root: String,
    pub entries: Vec<ProjectEntry>,
}

pub struct ProjectRecordView {
    pub root: Seq<char>,
    pub entries: Seq<ProjectEntry>,
}

impl View for ProjectRecord {
    type V = ProjectRecordView;

    open spec fn view(&self) -> ProjectRecordView {
        ProjectRecordView { root: self.root@, entries: self.entries@ }
    }
}

impl Clone for ProjectRecord {
    fn clone(&self) -> (r: Self)
        ensures
            r@ == self@,
    {
        let entries = self.entries.clone();
        assert(entries@ =~= self.entries@);
        ProjectRecord { root: self.root.clone(), entries }
    }
}

/// In a sequence without duplicates an element's index is its position.
pub proof fn lemma_index_of_unique<A>(s: Seq<A>, i: int)
    requires
        s.no_duplicates(),
        0 <= i < s.len(),
    ensures
        s.index_of(s[i]) == i,
{
    assert(s[i] == s[i]);
}

/// File analyses keyed by scan identifier and relative path.
pub struct FileCache {
    entries: Vec<(String, String, FileAnalysis)>,
}

/// The key of each cached analysis.
pub open spec fn file_keys(entries: Seq<(String, String, FileAnalysis)>) -> Seq<(Seq<char>, Seq<char>)> {
    entries.map_values(|e: (String, String, FileAnalysis)| (e.0@, e.1@))
}

impl FileCache {
    /// No key is kept twice.
    pub closed spec fn wf(&self) -> bool {
        file_keys(self.entries@).no_duplicates()
    }

    /// The analyses by key.
    pub closed spec fn view(&self) -> Map<(Seq<char>, Seq<char>), FileAnalysisView> {
        Map::new(
            |k: (Seq<char>, Seq<char>)| file_keys(self.entries@).contains(k),
            |k: (Seq<char>, Seq<char>)|
                self.entries@[file_keys(self.entries@).index_of(k)].2@,
        )
    }

    /// An empty cache.
    pub fn new() -> (r: FileCache)
        ensures
            r.wf(),
            r.view() == Map::<(Seq<char>, Seq<char>), FileAnalysisView>::empty(),
    {
        let r = FileCache { entries: Vec::new() };
        assert(file_keys(r.entries@) =~= Seq::empty());
        assert(r.view() =~= Map::empty());
        r
    }

    fn position(&self, scan_id: &str, path: &str) -> (r: Option<usize>)
        ensures
            match r {
                Some(i) => i < self.entries@.len() && file_keys(self.entries@)[i as int] == (
                    scan_id@,
                    path@,
                ),
                None => !file_keys(self.entries@).contains((scan_id@, path@)),
            },
    {
        for i in 0..self.entries.len()
            invariant
                forall|j: int| 0 <= j < i ==> #[trigger] file_keys(self.entries@)[j] != (
                    scan_id@,
                    path@,
                ),
        {
            if str_eq(&self.entries[i].0, scan_id) && str_eq(&self.entries[i].1, path) {
                return Some(i);
            }
        }
        None
    }

    /// The analysis kept for a file, if any.
    pub fn get(&self, scan_id: &str, path: &str) -> (r: Option<FileAnalysis>)
        requires
            self.wf(),
        ensures
            match r {
                Some(a) => self.view().contains_key((scan_id@, path@)) && a@ == self.view()[(
                    scan_id@,
                    path@,
                )],
                None => !self.view().contains_key((scan_id@, path@)),
            },
    {
        match self.position(scan_id, path) {
            Some(i) => {
                proof {
                    lemma_index_of_unique(file_keys(self.entries@), i as int);
                }
                Some(self.entries[i].2.clone())
            },
            None => None,
        }
    }

    /// Keeps `analysis` for a file, replacing what was kept for it.
    pub fn insert(&mut self, scan_id: String, path: String, analysis: FileAnalysis)
        requires
            old(self).wf(),
        ensures
            final(self).wf(),
            final(self).view() == old(self).view().insert((scan_id@, path@), analysis@),
    {
        let ghost key = (scan_id@, path@);
        let ghost old_keys = file_keys(self.entries@);
        let ghost before = self.view();
        match self.position(&scan_id, &path) {
            Some(i) => {
                let ghost old_entries = self.entries@;
                self.entries.set(i, (scan_id, path, analysis));
                proof {
                    assert(file_keys(self.entries@) =~= old_keys);
                    lemma_index_of_unique(old_keys, i as int);
                    assert forall|k: (Seq<char>, Seq<char>)|
                        old_keys.contains(k) && k != key implies old_keys.index_of(k) != i by {
                        lemma_index_of_unique(old_keys, old_keys.index_of(k));
                    }
                    assert(self.view() =~= before.insert(key, analysis@));
                }
            },
            None => {
                self.entries.push((scan_id, path, analysis));
                proof {
                    let keys = file_keys(self.entries@);
                    assert(keys =~= old_keys.push(key));
                    assert forall|a: int, b: int| 0 <= a < b < keys.len() implies keys[a]
                        != keys[b] by {
                        if b == keys.len() - 1 {
                            assert(old_keys.contains(keys[a]) ==> true);
                            assert(keys[a] == old_keys[a]);
                        }
                    }
                    assert forall|k: (Seq<char>, Seq<char>)|
                        old_keys.contains(k) implies keys.index_of(k) == old_keys.index_of(k) by {
                        let j = old_keys.index_of(k);
                        lemma_index_of_unique(old_keys, j);
                        lemma_index_of_unique(keys, j);
                    }
                    lemma_index_of_unique(keys, keys.len() - 1);
                    assert forall|k: (Seq<char>, Seq<char>)|
                        #[trigger] keys.contains(k) <==> (old_keys.contains(k) || k == key) by {
                        if old_keys.contains(k) {
                            let j = old_keys.index_of(k);
                            assert(keys[j] == k);
                        }
                        if k == key {
                            assert(keys[keys.len() - 1] == k);
                        }
                        if keys.contains(k) {
                            let j = keys.index_of(k);
                            if j < old_keys.len() {
                                assert(old_keys[j] == k);
                            }
                        }
                    }
                    assert(self.view() =~= before.insert(key, analysis@));
                }
            },
        }
    }
}

/// Search indexes keyed by scan identifier.
pub struct IndexCache {
    entries: Vec<(String, ProjectIndex)>,
}

pub open spec fn index_keys(entries: Seq<(String, ProjectIndex)>) -> Seq<Seq<char>> {
    entries.map_values(|e: (String, ProjectIndex)| e.0@)
}

impl IndexCache {
    /// No key is kept twice.
    pub closed spec fn wf(&self) -> bool {
        index_keys(self.entries@).no_duplicates()
    }

    /// The indexes by scan identifier.
    pub closed spec fn view(&self) -> Map<Seq<char>, ProjectIndexView> {
        Map::new(
            |k: Seq<char>| index_keys(self.entries@).contains(k),
            |k: Seq<char>| self.entries@[index_keys(self.entries@).index_of(k)].1@,
        )
    }

    pub fn new() -> (r: IndexCache)
        ensures
            r.wf(),
            r.view() == Map::<Seq<char>, ProjectIndexView>::empty(),
    {
        let r = IndexCache { entries: Vec::new() };
        assert(index_keys(r.entries@) =~= Seq::empty());
        assert(r.view() =~= Map::empty());
        r
    }

    fn position(&self, scan_id: &str) -> (r: Option<usize>)
        ensures
            match r {
                Some(i) => i < self.entries@.len() && index_keys(self.entries@)[i as int]
                    == scan_id@,
                None => !index_keys(self.entries@).contains(scan_id@),
            },
    {
        for i in 0..self.entries.len()
            invariant
                forall|j: int| 0 <= j < i ==> #[trigger] index_keys(self.entries@)[j] != scan_id@,
        {
            if str_eq(&self.entries[i].0, scan_id) {
                return Some(i);
            }
        }
        None
    }

    /// The index kept for a scan, if any.
    pub fn get(&self, scan_id: &str) -> (r: Option<ProjectIndex>)
        requires
            self.wf(),
        ensures
            match r {
                Some(x) => self.view().contains_key(scan_id@) && x@ == self.view()[scan_id@],
                None => !self.view().contains_key(scan_id@),
            },
    {
        match self.position(scan_id) {
            Some(i) => {
                proof {
                    lemma_index_of_unique(index_keys(self.entries@), i as int);
                }
                Some(self.entries[i].1.clone())
            },
            None => None,
        }
    }

    /// Keeps `index` for a scan, replacing what was kept for it.
    pub fn insert(&mut self, scan_id: String, index: ProjectIndex)
        requires
            old(self).wf(),
        ensures
            final(self).wf(),
            final(self).view() == old(self).view().insert(scan_id@, index@),
    {
        let ghost key = scan_id@;
        let ghost old_keys = index_keys(self.entries@);
        let ghost before = self.view();
        let ghost value = index@;
        match self.position(&scan_id) {
            Some(i) => {
                self.entries.set(i, (scan_id, index));
                proof {
                    assert(index_keys(self.entries@) =~= old_keys);
                    lemma_index_of_unique(old_keys, i as int);
                    assert forall|k: Seq<char>|
                        old_keys.contains(k) && k != key implies old_keys.index_of(k) != i by {
                        lemma_index_of_unique(old_keys, old_keys.index_of(k));
                    }
                    assert(self.view() =~= before.insert(key, value));
                }
            },
            None => {
                self.entries.push((scan_id, index));
                proof {
                    let keys = index_keys(self.entries@);
                    assert(keys =~= old_keys.push(key));
                    assert forall|a: int, b: int| 0 <= a < b < keys.len() implies keys[a]
                        != keys[b] by {
                        if b == keys.len() - 1 {
                            assert(keys[a] == old_keys[a]);
                        }
                    }
                    assert forall|k: Seq<char>|
                        old_keys.contains(k) implies keys.index_of(k) == old_keys.index_of(k) by {
                        let j = old_keys.index_of(k);
                        lemma_index_of_unique(old_keys, j);
                        lemma_index_of_unique(keys, j);
                    }
                    lemma_index_of_unique(keys, keys.len() - 1);
                    assert forall|k: Seq<char>|
                        #[trigger] keys.contains(k) <==> (old_keys.contains(k) || k == key) by {
                        if old_keys.contains(k) {
                            let j = old_keys.index_of(k);
                            assert(keys[j] == k);
                        }
                        if k == key {
                            assert(keys[keys.len() - 1] == k);
                        }
                        if keys.contains(k) {
                            let j = keys.index_of(k);
                            if j < old_keys.len() {
                                assert(old_keys[j] == k);
                            }
                        }
                    }
                    assert(self.view() =~= before.insert(key, value));
                }
            },
        }
    }
}

/// What the session keeps: the open project, analysed files and indexes.
pub struct AnalysisStateView {
    pub project: Option<(Seq<char>, ProjectRecordView)>,
    pub files: Map<(Seq<char>, Seq<char>), FileAnalysisView>,
    pub indexes: Map<Seq<char>, ProjectIndexView>,
}

impl AnalysisStateView {
    /// The open project, when it has this scan identifier.
    pub open spec fn project_for(self, scan_id: Seq<char>) -> Option<ProjectRecordView> {
        match self.project {
            Some((id, record)) => if id == scan_id {
                Some(record)
            } else {
                None
            },
            None => None,
        }
    }
}

/// The session right after a project is opened: that project alone, with
/// no analyses and no indexes.
pub open spec fn opened(scan_id: Seq<char>, root: Seq<char>, entries: Seq<ProjectEntry>) -> AnalysisStateView {
    AnalysisStateView {
        project: Some((scan_id, ProjectRecordView { root, entries })),
        files: Map::empty(),
        indexes: Map::empty(),
    }
}

/// The state of an analysis session.
pub struct AnalysisState {
    project: Option<(String, ProjectRecord)>,
    files: FileCache,
    search_indexes: IndexCache,
}

impl View for AnalysisState {
    type V = AnalysisStateView;

    closed spec fn view(&self) -> AnalysisStateView {
        AnalysisStateView {
            project: match self.project {
                Some((id, record)) => Some((id@, record@)),
                None => None,
            },
            files: self.files.view(),
            indexes: self.search_indexes.view(),
        }
    }
}

impl AnalysisState {
    pub closed spec fn wf(&self) -> bool {
        self.files.wf() && self.search_indexes.wf()
    }

    /// A session with no project.
    pub fn new() -> (r: AnalysisState)
        ensures
            r.wf(),
            r@.project is None,
            r@.files == Map::<(Seq<char>, Seq<char>), FileAnalysisView>::empty(),
            r@.indexes == Map::<Seq<char>, ProjectIndexView>::empty(),
    {
        AnalysisState { project: None, files: FileCache::new(), search_indexes: IndexCache::new() }
    }

    /// Opens a project, dropping the previous project with its analyses and
    /// indexes.
    pub fn register_project(&mut self, scan_id: String, root: String, entries: Vec<ProjectEntry>)
        ensures
            final(self).wf(),
            final(self)@ == opened(scan_id@, root@, entries@),
    {
        let ghost (id, r, e) = (scan_id@, root@, entries@);
        self.project = Some((scan_id, ProjectRecord { root, entries }));
        self.files = FileCache::new();
        self.search_indexes = IndexCache::new();
        assert(self@.files =~= Map::empty());
        assert(self@.indexes =~= Map::empty());
    }

    /// The root of the open project, when it has this scan identifier.
    pub fn project_root(&self, scan_id: &str) -> (r: Option<String>)
        ensures
            match r {
                Some(root) => self@.project_for(scan_id@) matches Some(p) && root@ == p.root,
                None => self@.project_for(scan_id@) is None,
            },
    {
        match &self.project {
            Some((id, record)) => if str_eq(id, scan_id) {
                Some(record.root.clone())
            } else {
                None
            },
            None => None,
        }
    }

    /// The open project, when it has this scan identifier.
    pub fn project(&self, scan_id: &str) -> (r: Option<ProjectRecord>)
        ensures
            match r {
                Some(p) => self@.project_for(scan_id@) == Some(p@),
                None => self@.project_for(scan_id@) is None,
            },
    {
        match &self.project {
            Some((id, record)) => if str_eq(id, scan_id) {
                Some(record.clone())
            } else {
                None
            },
            None => None,
        }
    }

    /// The analysed files, to read or extend.
    pub fn files(&mut self) -> (r: &mut FileCache)
        requires
            old(self).wf(),
        ensures
            r.wf(),
            r.view() == old(self)@.files,
            final(r).wf() ==> final(self).wf(),
            final(self)@ == (AnalysisStateView {
                project: old(self)@.project,
                files: final(r).view(),
                indexes: old(self)@.indexes,
            }),
    {
        &mut self.files
    }

    /// The search index kept for a scan, if any.
    pub fn search_index(&self, scan_id: &str) -> (r: Option<ProjectIndex>)
        requires
            self.wf(),
        ensures
            match r {
                Some(x) => self@.indexes.contains_key(scan_id@) && x@ == self@.indexes[scan_id@],
                None => !self@.indexes.contains_key(scan_id@),
            },
    {
        self.search_indexes.get(scan_id)
    }

    /// Keeps the search index of a scan.
    pub fn store_search_index(&mut self, scan_id: String, index: ProjectIndex)
        requires
            old(self).wf(),
        ensures
            final(self).wf(),
            final(self)@ == (AnalysisStateView {
                project: old(self)@.project,
                files: old(self)@.files,
                indexes: old(self)@.indexes.insert(scan_id@, index@),
            }),
    {
        self.search_indexes.insert(scan_id, index);
    }
}

impl Default for AnalysisState {
    fn default() -> (r: Self)
        ensures
            r.wf(),
            r@.project is None,
            r@.files == Map::<(Seq<char>, Seq<char>), FileAnalysisView>::empty(),
            r@.indexes == Map::<Seq<char>, ProjectIndexView>::empty(),
    {
        AnalysisState::new()
    }
}

/// Opening a project leaves nothing of the previous session: only the new
/// project can be looked up, and no analysis or index is kept.
pub proof fn law_opening_a_project_releases_the_previous_session(
    scan_id: Seq<char>,
    root: Seq<char>,
    entries: Seq<ProjectEntry>,
    other: Seq<char>,
)
    requires
        other != scan_id,
    ensures
        opened(scan_id, root, entries).project_for(scan_id) == Some(
            ProjectRecordView { root, entries },
        ),
        opened(scan_id, root, entries).project_for(other) is None,
        !opened(scan_id, root, entries).indexes.contains_key(other),
        !opened(scan_id, root, entries).indexes.contains_key(scan_id),
        opened(scan_id, root, entries).files.dom() == Set::<(Seq<char>, Seq<char>)>::empty(),
{
}

/// A stored index is what a later lookup of its scan gives, and the
/// indexes of other scans stay as they were.
pub proof fn law_a_stored_index_is_found_again(
    s: AnalysisStateView,
    scan_id: Seq<char>,
    index: ProjectIndexView,
    other: Seq<char>,
)
    requires
        other != scan_id,
    ensures
        ({
            let t = AnalysisStateView {
                project: s.project,
                files: s.files,
                indexes: s.indexes.insert(scan_id, index),
            };
            &&& t.indexes.contains_key(scan_id)
            &&& t.indexes[scan_id] == index
            &&& t.indexes.contains_key(other) == s.indexes.contains_key(other)
            &&& s.indexes.contains_key(other) ==> t.indexes[other] == s.indexes[other]
            &&& t.project_for(other) == s.project_for(other)
        }),
{
}

} // verus!
