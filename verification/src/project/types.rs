//! Values describing a scanned project.
use vstd::prelude::*;

verus! {

/// Whether an entry is a directory or a file.
#[derive(Debug, Clone, Copy, PartialEq, Eq, Structural)]
pub enum EntryKind {
    Directory,
    File,
}

/// One file or directory of a project, with its path relative to the root.
#[derive(Debug, PartialEq, Eq)]
pub struct ProjectEntry {
    pub path: String,
    pub name: String,
    pub parent: Option<String>,
    pub kind: EntryKind,
    pub size: u64,
    pub language: Option<String>,
}

impl Clone for ProjectEntry {
    fn clone(&self) -> (r: Self)
        ensures
            r == *self,
    {
        ProjectEntry {
            path: self.path.clone(),
            name: self.name.clone(),
            parent: self.parent.clone(),
            kind: self.kind,
            size: self.size,
            language: self.language.clone(),
        }
    }
}

/// Number of files and bytes of one detected language.
#[derive(Debug, PartialEq, Eq)]
pub struct LanguageTotal {
    pub id: String,
    pub file_count: u64,
    pub total_bytes: u64,
}

impl Clone for LanguageTotal {
    fn clone(&self) -> (r: Self)
        ensures
            r == *self,
    {
        LanguageTotal { id: self.id.clone(), file_count: self.file_count, total_bytes: self.total_bytes }
    }
}

/// The result of scanning a project folder.
#[derive(Debug)]
pub struct ProjectSnapshot {
    pub scan_id: String,
    pub root: String,
    pub name: String,
    pub entries: Vec<ProjectEntry>,
    pub languages: Vec<LanguageTotal>,
    pub file_count: u64,
    pub total_bytes: u64,
    pub skipped_count: u64,
}

/// Progress of a running scan.
#[derive(Debug)]
pub struct ScanProgress {
    pub scan_id: String,
    pub files_scanned: u64,
    pub current_path: String,
}

/// Why a scan failed.
#[derive(Debug)]
pub struct ScanError {
    pub code: &'static str,
    pub message: String,
}

impl ScanError {
    /// The root is not a readable folder.
    pub fn invalid_root(message: String) -> (r: Self)
        ensures
            r.code@ == "invalidRoot"@,
            r.message@ == message@,
    {
        ScanError { code: "invalidRoot", message }
    }

    /// The scan was cancelled by the user.
    pub fn cancelled() -> (r: Self)
        ensures
            r.code@ == "cancelled"@,
            r.message@ == "Project scan was cancelled"@,
    {
        ScanError { code: "cancelled", message: "Project scan was cancelled".to_owned() }
    }
}

} // verus!
