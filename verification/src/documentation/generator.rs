//! Deterministic Markdown documentation with Mermaid diagrams.
use vstd::prelude::*;
use vstd::utf8::encode_utf8;

use crate::analysis::types::ProjectStatistics;
use crate::digest::{blake3_hex, hash_hex};
use crate::project::paths::{file_name, file_name_of};
use crate::project::types::{EntryKind, ProjectEntry};
use crate::search::types::{GraphEdge, GraphNode, ProjectIndex, SearchResult};
use crate::text::{
    chars_of, decimal, decimal_string, ends_with, lemma_replace_char_avoids, push_str,
    replace_char, str_ends_with, str_replace_char, str_trim_end, string_of, subseq, trim_end,
};

use super::types::DocumentationBundle;

verus! {

/// The texts of `items`, one after the other.
pub open spec fn joined<A>(items: Seq<A>, line: spec_fn(A) -> Seq<char>) -> Seq<char>
    decreases items.len(),
{
    if items.len() == 0 {
        seq![]
    } else {
        joined(items.drop_last(), line) + line(items.last())
    }
}

proof fn lemma_joined_push<A>(items: Seq<A>, x: A, line: spec_fn(A) -> Seq<char>)
    ensures
        joined(items.push(x), line) == joined(items, line) + line(x),
{
    assert(items.push(x).drop_last() =~= items);
}

/// The Mermaid node id of a value: `n_` and the first twelve hexadecimal
/// digits of the BLAKE3 digest of its UTF-8 bytes.
pub open spec fn mermaid_id_of(value: Seq<char>) -> Seq<char> {
    "n_"@ + blake3_hex(encode_utf8(value)).take(12)
}

/// A stable Mermaid node id for `value`.
pub fn mermaid_id(value: &str) -> (r: String)
    ensures
        r@ == mermaid_id_of(value@),
{
    let hex = hash_hex(value.as_bytes());
    let digits = chars_of(&hex);
    let first = subseq(&digits, 0, 12);
    assert(first@ =~= blake3_hex(encode_utf8(value@)).take(12));
    let mut r = String::new();
    push_str(&mut r, "n_");
    let tail = string_of(&first);
    push_str(&mut r, &tail);
    assert(r@ =~= mermaid_id_of(value@));
    r
}

/// A label with `&`, `"`, `<` and `>` written as HTML entities.
pub open spec fn mermaid_escaped(s: Seq<char>) -> Seq<char> {
    replace_char(
        replace_char(replace_char(replace_char(s, '&', "&amp;"@), '"', "&quot;"@), '<', "&lt;"@),
        '>',
        "&gt;"@,
    )
}

/// Escapes a Mermaid label; the result holds no `"`, `<` or `>`.
pub fn escape_mermaid(value: &str) -> (r: String)
    ensures
        r@ == mermaid_escaped(value@),
        !r@.contains('"'),
        !r@.contains('<'),
        !r@.contains('>'),
{
    let a = str_replace_char(value, '&', "&amp;");
    let b = str_replace_char(&a, '"', "&quot;");
    let c = str_replace_char(&b, '<', "&lt;");
    let d = str_replace_char(&c, '>', "&gt;");
    proof {
        reveal_strlit("&amp;");
        reveal_strlit("&quot;");
        reveal_strlit("&lt;");
        reveal_strlit("&gt;");
        lemma_replace_char_avoids(a@, '"', "&quot;"@, '"');
        lemma_replace_char_avoids(b@, '<', "&lt;"@, '"');
        lemma_replace_char_avoids(c@, '>', "&gt;"@, '"');
        lemma_replace_char_avoids(b@, '<', "&lt;"@, '<');
        lemma_replace_char_avoids(c@, '>', "&gt;"@, '<');
        lemma_replace_char_avoids(c@, '>', "&gt;"@, '>');
    }
    d
}

/// Whether a character is escaped in Markdown text.
pub open spec fn markdown_special(c: char) -> bool {
    c == '*' || c == '_' || c == '`'
}

/// A text with `*`, `_` and `` ` `` each preceded by a backslash.
pub open spec fn markdown_escaped(s: Seq<char>) -> Seq<char>
    decreases s.len(),
{
    if s.len() == 0 {
        seq![]
    } else {
        markdown_escaped(s.drop_last()) + if markdown_special(s.last()) {
            seq!['\\', s.last()]
        } else {
            seq![s.last()]
        }
    }
}

/// Escapes Markdown emphasis and code characters.
pub fn escape_markdown(value: &str) -> (r: String)
    ensures
        r@ == markdown_escaped(value@),
{
    let v = chars_of(value);
    let mut out = String::new();
    for i in 0..v.len()
        invariant
            v@ == value@,
            out@ == markdown_escaped(v@.take(i as int)),
    {
        assert(v@.take(i + 1).drop_last() =~= v@.take(i as int));
        let c = v[i];
        if c == '*' || c == '_' || c == '`' {
            out.push('\\');
            out.push(c);
            assert(out@ =~= markdown_escaped(v@.take(i as int)) + seq!['\\', c]);
        } else {
            out.push(c);
            assert(out@ =~= markdown_escaped(v@.take(i as int)) + seq![c]);
        }
    }
    assert(v@.take(v.len() as int) =~= v@);
    out
}

pub open spec fn is_directory() -> spec_fn(ProjectEntry) -> bool {
    |e: ProjectEntry| e.kind == EntryKind::Directory
}

pub open spec fn is_file() -> spec_fn(ProjectEntry) -> bool {
    |e: ProjectEntry| e.kind == EntryKind::File
}

/// The diagram line of a directory: an edge from its parent (or the root).
pub open spec fn folder_line() -> spec_fn(ProjectEntry) -> Seq<char> {
    |e: ProjectEntry|
        "  "@ + match e.parent {
            Some(p) => mermaid_id_of(p@),
            None => "root"@,
        } + " --> "@ + mermaid_id_of(e.path@) + "[\""@ + mermaid_escaped(e.name@) + "\"]\n"@
}

/// At most the first `n` items.
pub open spec fn at_most<A>(items: Seq<A>, n: nat) -> Seq<A> {
    if items.len() <= n {
        items
    } else {
        items.take(n as int)
    }
}

/// The folder flowchart: the first 200 directories, each linked to its parent.
pub open spec fn folder_diagram_of(entries: Seq<ProjectEntry>) -> Seq<char> {
    trim_end(
        "flowchart TD\n  root[\"Project\"]\n"@ + joined(
            at_most(entries.filter(is_directory()), 200),
            folder_line(),
        ),
    )
}

/// The items kept by `pred` from a prefix are a prefix of those kept from all.
proof fn lemma_filter_prefix<A>(s: Seq<A>, i: int, pred: spec_fn(A) -> bool)
    requires
        0 <= i <= s.len(),
    ensures
        s.filter(pred) == s.take(i).filter(pred) + s.skip(i).filter(pred),
{
    assert(s =~= s.take(i) + s.skip(i));
    Seq::filter_distributes_over_add(s.take(i), s.skip(i), pred);
}

/// The Mermaid flowchart of the project's folders.
pub fn folder_diagram(entries: &[ProjectEntry]) -> (r: String)
    ensures
        r@ == folder_diagram_of(entries@),
{
    let mut out = String::new();
    push_str(&mut out, "flowchart TD\n  root[\"Project\"]\n");
    let ghost header = out@;
    assert(header == "flowchart TD\n  root[\"Project\"]\n"@);
    let mut shown: usize = 0;
    let mut i: usize = 0;
    assert(entries@.take(0).filter(is_directory()) =~= seq![]) by {
        reveal(Seq::filter);
    }
    while i < entries.len() && shown < 200
        invariant
            i <= entries.len(),
            shown <= 200,
            shown == entries@.take(i as int).filter(is_directory()).len(),
            header == "flowchart TD\n  root[\"Project\"]\n"@,
            out@ == header + joined(entries@.take(i as int).filter(is_directory()), folder_line()),
        decreases entries.len() - i,
    {
        let ghost prev = entries@.take(i as int).filter(is_directory());
        assert(entries@.take(i + 1).drop_last() =~= entries@.take(i as int));
        proof {
            reveal(Seq::filter);
        }
        let entry = &entries[i];
        if entry.kind == EntryKind::Directory {
            assert(entries@.take(i + 1).filter(is_directory()) == prev.push(entries@[i as int]));
            let parent = match &entry.parent {
                Some(p) => mermaid_id(p),
                None => "root".to_owned(),
            };
            let id = mermaid_id(&entry.path);
            let label = escape_mermaid(&entry.name);
            let ghost before = out@;
            push_str(&mut out, "  ");
            push_str(&mut out, &parent);
            push_str(&mut out, " --> ");
            push_str(&mut out, &id);
            push_str(&mut out, "[\"");
            push_str(&mut out, &label);
            push_str(&mut out, "\"]\n");
            proof {
                let line = folder_line()(entries@[i as int]);
                assert(out@ =~= before + line);
                lemma_joined_push(prev, entries@[i as int], folder_line());
                assert(out@ =~= header + joined(prev.push(entries@[i as int]), folder_line()));
            }
            shown = shown + 1;
        } else {
            assert(entries@.take(i + 1).filter(is_directory()) == prev);
        }
        i = i + 1;
    }
    proof {
        let dirs = entries@.filter(is_directory());
        let got = entries@.take(i as int).filter(is_directory());
        lemma_filter_prefix(entries@, i as int, is_directory());
        if i == entries.len() {
            assert(entries@.take(i as int) =~= entries@);
            assert(entries@.skip(i as int).filter(is_directory()) =~= seq![]);
            assert(dirs =~= got);
        } else {
            assert(dirs.take(200) =~= got);
        }
        assert(at_most(dirs, 200) == got);
    }
    str_trim_end(&out)
}

pub open spec fn node_line() -> spec_fn(GraphNode) -> Seq<char> {
    |n: GraphNode| "  "@ + mermaid_id_of(n.id@) + "[\""@ + mermaid_escaped(n.label@) + "\"]\n"@
}

pub open spec fn edge_line() -> spec_fn(GraphEdge) -> Seq<char> {
    |e: GraphEdge| "  "@ + mermaid_id_of(e.source@) + " --> "@ + mermaid_id_of(e.target@) + "\n"@
}

/// The dependency flowchart: one node per graph node, then one arrow per edge.
pub open spec fn dependency_diagram_of(nodes: Seq<GraphNode>, edges: Seq<GraphEdge>) -> Seq<char> {
    trim_end("flowchart LR\n"@ + joined(nodes, node_line()) + joined(edges, edge_line()))
}

/// The Mermaid flowchart of the local imports between files.
pub fn dependency_diagram(index: &ProjectIndex) -> (r: String)
    ensures
        r@ == dependency_diagram_of(index.graph.nodes@, index.graph.edges@),
{
    let mut out = String::new();
    push_str(&mut out, "flowchart LR\n");
    let ghost header = out@;
    let nodes = &index.graph.nodes;
    let edges = &index.graph.edges;
    for i in 0..nodes.len()
        invariant
            nodes@ == index.graph.nodes@,
            header == "flowchart LR\n"@,
            out@ == header + joined(nodes@.take(i as int), node_line()),
    {
        let node = &nodes[i];
        let id = mermaid_id(&node.id);
        let label = escape_mermaid(&node.label);
        let ghost before = out@;
        push_str(&mut out, "  ");
        push_str(&mut out, &id);
        push_str(&mut out, "[\"");
        push_str(&mut out, &label);
        push_str(&mut out, "\"]\n");
        proof {
            assert(nodes@.take(i + 1) =~= nodes@.take(i as int).push(nodes@[i as int]));
            lemma_joined_push(nodes@.take(i as int), nodes@[i as int], node_line());
            assert(out@ =~= before + node_line()(nodes@[i as int]));
        }
    }
    assert(nodes@.take(nodes.len() as int) =~= nodes@);
    let ghost middle = out@;
    for j in 0..edges.len()
        invariant
            edges@ == index.graph.edges@,
            out@ == middle + joined(edges@.take(j as int), edge_line()),
    {
        let edge = &edges[j];
        let source = mermaid_id(&edge.source);
        let target = mermaid_id(&edge.target);
        let ghost before = out@;
        push_str(&mut out, "  ");
        push_str(&mut out, &source);
        push_str(&mut out, " --> ");
        push_str(&mut out, &target);
        push_str(&mut out, "\n");
        proof {
            assert(edges@.take(j + 1) =~= edges@.take(j as int).push(edges@[j as int]));
            lemma_joined_push(edges@.take(j as int), edges@[j as int], edge_line());
            assert(out@ =~= before + edge_line()(edges@[j as int]));
        }
    }
    assert(edges@.take(edges.len() as int) =~= edges@);
    assert(out@ =~= "flowchart LR\n"@ + joined(index.graph.nodes@, node_line()) + joined(
        index.graph.edges@,
        edge_line(),
    ));
    str_trim_end(&out)
}

pub open spec fn is_class_entry() -> spec_fn(SearchResult) -> bool {
    |e: SearchResult| ends_with(e.detail@, "class"@)
}

pub open spec fn class_line() -> spec_fn(SearchResult) -> Seq<char> {
    |e: SearchResult| "  class "@ + mermaid_id_of(e.label@) + "\n"@
}

/// The class diagram: one class per index entry whose detail ends with `class`.
pub open spec fn class_diagram_of(entries: Seq<SearchResult>) -> Seq<char> {
    trim_end("classDiagram\n"@ + joined(entries.filter(is_class_entry()), class_line()))
}

/// The Mermaid class diagram of the indexed classes.
pub fn class_diagram(index: &ProjectIndex) -> (r: String)
    ensures
        r@ == class_diagram_of(index.entries@),
{
    let mut out = String::new();
    push_str(&mut out, "classDiagram\n");
    let ghost header = out@;
    let entries = &index.entries;
    assert(entries@.take(0).filter(is_class_entry()) =~= seq![]) by {
        reveal(Seq::filter);
    }
    for i in 0..entries.len()
        invariant
            entries@ == index.entries@,
            header == "classDiagram\n"@,
            out@ == header + joined(entries@.take(i as int).filter(is_class_entry()), class_line()),
    {
        let ghost prev = entries@.take(i as int).filter(is_class_entry());
        assert(entries@.take(i + 1).drop_last() =~= entries@.take(i as int));
        proof {
            reveal(Seq::filter);
        }
        let entry = &entries[i];
        if str_ends_with(&entry.detail, "class") {
            assert(entries@.take(i + 1).filter(is_class_entry()) == prev.push(entries@[i as int]));
            let id = mermaid_id(&entry.label);
            let ghost before = out@;
            push_str(&mut out, "  class ");
            push_str(&mut out, &id);
            push_str(&mut out, "\n");
            proof {
                lemma_joined_push(prev, entries@[i as int], class_line());
                assert(out@ =~= before + class_line()(entries@[i as int]));
            }
        } else {
            assert(entries@.take(i + 1).filter(is_class_entry()) == prev);
        }
    }
    assert(entries@.take(entries.len() as int) =~= entries@);
    str_trim_end(&out)
}

/// Number of file entries.
pub fn file_count(entries: &[ProjectEntry]) -> (r: usize)
    ensures
        r == entries@.filter(is_file()).len(),
{
    let mut count: usize = 0;
    assert(entries@.take(0).filter(is_file()) =~= seq![]) by {
        reveal(Seq::filter);
    }
    for i in 0..entries.len()
        invariant
            count == entries@.take(i as int).filter(is_file()).len(),
            count <= i,
    {
        assert(entries@.take(i + 1).drop_last() =~= entries@.take(i as int));
        proof {
            reveal(Seq::filter);
        }
        if entries[i].kind == EntryKind::File {
            count = count + 1;
        }
    }
    assert(entries@.take(entries.len() as int) =~= entries@);
    count
}

pub open spec fn has_symbol() -> spec_fn(SearchResult) -> bool {
    |e: SearchResult| e.symbol_id is Some
}

/// The Markdown list item of an indexed symbol.
pub open spec fn symbol_line() -> spec_fn(SearchResult) -> Seq<char> {
    |e: SearchResult|
        "- **"@ + markdown_escaped(e.label@) + "** in `"@ + e.path@ + "`"@ + match e.line {
            Some(l) => " at line "@ + decimal(l as nat),
            None => seq![],
        } + "\n"@
}

/// The symbol list of the documentation.
pub open spec fn symbols_section(entries: Seq<SearchResult>) -> Seq<char> {
    joined(entries.filter(has_symbol()), symbol_line())
}

/// Appends the symbol list to `out`.
fn push_symbols(out: &mut String, entries: &Vec<SearchResult>)
    ensures
        final(out)@ == old(out)@ + symbols_section(entries@),
{
    let ghost start = out@;
    assert(entries@.take(0).filter(has_symbol()) =~= seq![]) by {
        reveal(Seq::filter);
    }
    for i in 0..entries.len()
        invariant
            out@ == start + joined(entries@.take(i as int).filter(has_symbol()), symbol_line()),
    {
        let ghost prev = entries@.take(i as int).filter(has_symbol());
        assert(entries@.take(i + 1).drop_last() =~= entries@.take(i as int));
        proof {
            reveal(Seq::filter);
        }
        let entry = &entries[i];
        if entry.symbol_id.is_some() {
            assert(entries@.take(i + 1).filter(has_symbol()) == prev.push(entries@[i as int]));
            let label = escape_markdown(&entry.label);
            let ghost before = out@;
            push_str(out, "- **");
            push_str(out, &label);
            push_str(out, "** in `");
            push_str(out, &entry.path);
            push_str(out, "`");
            let ghost mid = out@;
            match entry.line {
                Some(line) => {
                    push_str(out, " at line ");
                    let digits = decimal_string(line as u64);
                    push_str(out, &digits);
                },
                None => {
                    assert(out@ =~= mid + seq![]);
                },
            }
            push_str(out, "\n");
            proof {
                lemma_joined_push(prev, entries@[i as int], symbol_line());
                assert(out@ =~= before + symbol_line()(entries@[i as int]));
            }
        } else {
            assert(entries@.take(i + 1).filter(has_symbol()) == prev);
        }
    }
    assert(entries@.take(entries.len() as int) =~= entries@);
}

/// The name of the documented project: the last component of its root, or
/// `Project` when the root has none.
pub open spec fn project_name_of(root: Seq<char>) -> Seq<char> {
    match file_name_of(root) {
        Some(n) => n,
        None => "Project"@,
    }
}

/// The whole Markdown document.
pub open spec fn markdown_of(
    name: Seq<char>,
    files: nat,
    total_lines: nat,
    source_lines: nat,
    dependencies: nat,
    folder: Seq<char>,
    dependency: Seq<char>,
    class: Seq<char>,
    entries: Seq<SearchResult>,
) -> Seq<char> {
    "# "@ + name + "\n\nGenerated locally by Codebase Explorer.\n\n## Overview\n\n- Files: "@
        + decimal(files) + "\n- Lines: "@ + decimal(total_lines) + "\n- Source lines: "@
        + decimal(source_lines) + "\n- Dependencies: "@ + decimal(dependencies)
        + "\n\n## Folder Structure\n\n```mermaid\n"@ + folder
        + "\n```\n\n## Dependencies\n\n```mermaid\n"@ + dependency
        + "\n```\n\n## Classes\n\n```mermaid\n"@ + class + "\n```\n\n## Symbols\n\n"@
        + symbols_section(entries)
}

/// Generates the documentation of a project from its scan inventory, its
/// statistics and its search index.
pub fn generate(
    root: &str,
    entries: &[ProjectEntry],
    statistics: &ProjectStatistics,
    index: &ProjectIndex,
) -> (r: DocumentationBundle)
    ensures
        r.project_name@ == project_name_of(root@),
        r.folder_diagram@ == folder_diagram_of(entries@),
        r.dependency_diagram@ == dependency_diagram_of(index.graph.nodes@, index.graph.edges@),
        r.class_diagram@ == class_diagram_of(index.entries@),
        r.markdown@ == markdown_of(
            project_name_of(root@),
            entries@.filter(is_file()).len(),
            statistics.total_lines as nat,
            statistics.source_lines as nat,
            statistics.dependencies@.len(),
            folder_diagram_of(entries@),
            dependency_diagram_of(index.graph.nodes@, index.graph.edges@),
            class_diagram_of(index.entries@),
            index.entries@,
        ),
{
    let project_name = match file_name(root) {
        Some(n) => n,
        None => "Project".to_owned(),
    };
    let folder = folder_diagram(entries);
    let dependency = dependency_diagram(index);
    let class = class_diagram(index);
    let files = file_count(entries);
    let mut markdown = String::new();
    push_str(&mut markdown, "# ");
    push_str(&mut markdown, &project_name);
    push_str(
        &mut markdown,
        "\n\nGenerated locally by Codebase Explorer.\n\n## Overview\n\n- Files: ",
    );
    push_str(&mut markdown, &decimal_string(files as u64));
    push_str(&mut markdown, "\n- Lines: ");
    push_str(&mut markdown, &decimal_string(statistics.total_lines));
    push_str(&mut markdown, "\n- Source lines: ");
    push_str(&mut markdown, &decimal_string(statistics.source_lines));
    push_str(&mut markdown, "\n- Dependencies: ");
    push_str(&mut markdown, &decimal_string(statistics.dependencies.len() as u64));
    push_str(&mut markdown, "\n\n## Folder Structure\n\n```mermaid\n");
    push_str(&mut markdown, &folder);
    push_str(&mut markdown, "\n```\n\n## Dependencies\n\n```mermaid\n");
    push_str(&mut markdown, &dependency);
    push_str(&mut markdown, "\n```\n\n## Classes\n\n```mermaid\n");
    push_str(&mut markdown, &class);
    push_str(&mut markdown, "\n```\n\n## Symbols\n\n");
    push_symbols(&mut markdown, &index.entries);
    DocumentationBundle {
        project_name,
        markdown,
        folder_diagram: folder,
        class_diagram: class,
        dependency_diagram: dependency,
    }
}

} // verus!
