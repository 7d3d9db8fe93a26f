//! Analysing a file of the open project: which files may be read, and
//! when an earlier analysis is reused.
use vstd::prelude::*;
use vstd::utf8::{decode_utf8, valid_utf8};

use crate::digest::{blake3_hex, hash_hex};
use crate::project::paths::{path_starts_with, starts_with_path};

use super::parser::{analysis_of, parse_file, parse_outcome};
use super::syntax::NodeShape;
use super::syntax::NodeSpan;
use super::types::{AnalysisError, FileAnalysis, FileAnalysisView};
use crate::languages::LanguageParser;

verus! {

/// Source files larger than this are not parsed (5 MB).
pub const MAX_SOURCE_BYTES: u64 = 5242880;

/// Refuses files larger than `MAX_SOURCE_BYTES`.
pub fn check_source_size(len: u64) -> (r: Result<(), AnalysisError>)
    ensures
        (r is Ok) == (len <= MAX_SOURCE_BYTES),
        r matches Err(e) ==> e.code@ == "fileTooLarge"@ && e.message@
            == "Source files larger than 5 MB are not parsed"@,
{
    if len > MAX_SOURCE_BYTES {
        return Err(AnalysisError::new("fileTooLarge", "Source files larger than 5 MB are not parsed".to_owned()));
    }
    Ok(())
}

/// Accepts only a file inside the project root; both paths are canonical.
pub fn check_source_path(root: &str, canonical: &str, is_file: bool) -> (r: Result<
    (),
    AnalysisError,
>)
    ensures
        (r is Ok) == (path_starts_with(canonical@, root@) && is_file),
        r matches Err(e) ==> e.code@ == "invalidPath"@ && e.message@
            == "Source file is outside the open project"@,
{
    if !starts_with_path(canonical, root) || !is_file {
        return Err(AnalysisError::new("invalidPath", "Source file is outside the open project".to_owned()));
    }
    Ok(())
}

/// Decodes UTF-8 text with `String::from_utf8`.
///
/// Trusted: `from_utf8` accepts exactly the valid UTF-8 byte sequences and
/// keeps their characters.
#[verifier::external_body]
fn utf8_text(bytes: Vec<u8>) -> (r: Option<String>)
    ensures
        match r {
            Some(s) => valid_utf8(bytes@) && s@ == decode_utf8(bytes@),
            None => !valid_utf8(bytes@),
        },
{
    String::from_utf8(bytes).ok()
}

/// Whether an earlier analysis has the digest of these bytes.
pub open spec fn reused(cached: Option<&FileAnalysis>, bytes: Seq<u8>) -> bool {
    cached matches Some(c) && c.content_hash@ == blake3_hex(bytes)
}

/// The analysis of a file's bytes. An earlier analysis with the same
/// BLAKE3 digest is given back marked as cached; otherwise the bytes must
/// be UTF-8, and the text is parsed.
pub fn analyze_source(
    path: &str,
    relative_path: &str,
    bytes: Vec<u8>,
    cached: Option<&FileAnalysis>,
) -> (r: Result<FileAnalysis, AnalysisError>)
    ensures
        reused(cached, bytes@) ==> (r matches Ok(a) && a@ == (FileAnalysisView {
            cached: true,
            ..cached->0@
        })),
        !reused(cached, bytes@) ==> if valid_utf8(bytes@) {
            parse_outcome(path@, relative_path@, decode_utf8(bytes@), r)
        } else {
            r matches Err(e) && e.code@ == "invalidEncoding"@ && e.message@
                == "Source file is not valid UTF-8"@
        },
{
    let content_hash = hash_hex(bytes.as_slice());
    match cached {
        Some(c) => {
            if crate::text::str_eq(&c.content_hash, &content_hash) {
                let mut result = c.clone();
                result.cached = true;
                return Ok(result);
            }
        },
        None => {},
    }
    match utf8_text(bytes) {
        Some(source) => parse_file(path, relative_path, source),
        None => Err(AnalysisError::new("invalidEncoding", "Source file is not valid UTF-8".to_owned())),
    }
}

/// A fresh analysis carries the digest of the file's bytes, so analysing
/// the same bytes again with it at hand gives it back from the cache.
pub proof fn law_unchanged_content_is_recognised(
    a: FileAnalysis,
    relative_path: Seq<char>,
    bytes: Seq<u8>,
    lang: LanguageParser,
    nodes: Seq<NodeShape>,
    spans: Seq<NodeSpan>,
)
    requires
        valid_utf8(bytes),
        analysis_of(a, relative_path, decode_utf8(bytes), lang, nodes, spans),
    ensures
        a.content_hash@ == blake3_hex(bytes),
{
    vstd::utf8::decode_utf8_encode_utf8(bytes);
}

} // verus!
