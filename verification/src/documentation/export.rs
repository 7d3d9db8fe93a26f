//! What an export writes: Markdown as it is, a self-contained HTML page, or
//! the text streams of PDF pages.
use vstd::prelude::*;
use vstd::string::StrSliceExecFns;
use vstd::utf8::encode_utf8;

use crate::analysis::types::AnalysisError;
use crate::text::{
    concat, lemma_replace_char_avoids, lines, lines_of, push_str, replace_char, str_replace_char,
};

use super::generator::joined;
use super::types::{DocumentationBundle, ExportFormat};
use super::pdf::{byte_views, pdf_document, pdf_file, PdfLayout, PDF_PAGE_LIMIT};

verus! {

/// A text with `&`, `<`, `>` and `"` written as HTML entities.
pub open spec fn html_escaped(s: Seq<char>) -> Seq<char> {
    replace_char(
        replace_char(replace_char(replace_char(s, '&', "&amp;"@), '<', "&lt;"@), '>', "&gt;"@),
        '"',
        "&quot;"@,
    )
}

/// Escapes project-controlled text for HTML; the result holds no `<`, `>`
/// or `"`.
pub fn escape_html(value: &str) -> (r: String)
    ensures
        r@ == html_escaped(value@),
        !r@.contains('<'),
        !r@.contains('>'),
        !r@.contains('"'),
{
    let a = str_replace_char(value, '&', "&amp;");
    let b = str_replace_char(&a, '<', "&lt;");
    let c = str_replace_char(&b, '>', "&gt;");
    let d = str_replace_char(&c, '"', "&quot;");
    proof {
        reveal_strlit("&amp;");
        reveal_strlit("&quot;");
        reveal_strlit("&lt;");
        reveal_strlit("&gt;");
        lemma_replace_char_avoids(a@, '<', "&lt;"@, '<');
        lemma_replace_char_avoids(b@, '>', "&gt;"@, '<');
        lemma_replace_char_avoids(c@, '"', "&quot;"@, '<');
        lemma_replace_char_avoids(b@, '>', "&gt;"@, '>');
        lemma_replace_char_avoids(c@, '"', "&quot;"@, '>');
        lemma_replace_char_avoids(c@, '"', "&quot;"@, '"');
    }
    d
}

/// The page before the title.
pub open spec fn html_head() -> Seq<char> {
    "<!doctype html><html lang=\"en\"><meta charset=\"utf-8\"><meta name=\"viewport\" content=\"width=device-width\"><title>"@
}

/// The page between the title and the body text: an inline style sheet.
pub open spec fn html_style() -> Seq<char> {
    "</title><style>body{max-width:960px;margin:40px auto;padding:0 24px;background:#111310;color:#e7e9e2;font:15px/1.6 system-ui}pre{white-space:pre-wrap;font-family:ui-monospace,monospace}</style><body><pre>"@
}

/// The page after the body text.
pub open spec fn html_tail() -> Seq<char> {
    "</pre></body></html>"@
}

/// The HTML page of a bundle: the escaped project name as title and the
/// escaped Markdown as preformatted body.
pub open spec fn html_of(project_name: Seq<char>, markdown: Seq<char>) -> Seq<char> {
    html_head() + html_escaped(project_name) + html_style() + html_escaped(markdown) + html_tail()
}

/// Renders documentation as a self-contained HTML page.
pub fn html(bundle: &DocumentationBundle) -> (r: String)
    ensures
        r@ == html_of(bundle.project_name@, bundle.markdown@),
{
    let body = escape_html(&bundle.markdown);
    let title = escape_html(&bundle.project_name);
    let mut out = String::new();
    push_str(
        &mut out,
        "<!doctype html><html lang=\"en\"><meta charset=\"utf-8\"><meta name=\"viewport\" content=\"width=device-width\"><title>",
    );
    push_str(&mut out, &title);
    push_str(
        &mut out,
        "</title><style>body{max-width:960px;margin:40px auto;padding:0 24px;background:#111310;color:#e7e9e2;font:15px/1.6 system-ui}pre{white-space:pre-wrap;font-family:ui-monospace,monospace}</style><body><pre>",
    );
    push_str(&mut out, &body);
    push_str(&mut out, "</pre></body></html>");
    out
}

/// No `<` of `s` opens a `<sc…` tag: each is followed, within `s`, by two
/// characters other than `sc`.
pub open spec fn opens_no_script(s: Seq<char>) -> bool {
    forall|k: int|
        0 <= k < s.len() && #[trigger] s[k] == '<' ==> k + 2 < s.len() && !(s[k + 1] == 's' && s[k
            + 2] == 'c')
}

proof fn lemma_template_opens_no_script()
    ensures
        opens_no_script(html_head()),
        opens_no_script(html_style()),
        opens_no_script(html_tail()),
{
    reveal_strlit(
        "<!doctype html><html lang=\"en\"><meta charset=\"utf-8\"><meta name=\"viewport\" content=\"width=device-width\"><title>",
    );
    reveal_strlit(
        "</title><style>body{max-width:960px;margin:40px auto;padding:0 24px;background:#111310;color:#e7e9e2;font:15px/1.6 system-ui}pre{white-space:pre-wrap;font-family:ui-monospace,monospace}</style><body><pre>",
    );
    reveal_strlit("</pre></body></html>");
}

/// The exported page contains no `<script`: the page's own markup opens no
/// script, and the project's text is escaped.
pub proof fn law_html_export_has_no_script(project_name: Seq<char>, markdown: Seq<char>)
    ensures
        !crate::text::contains(html_of(project_name, markdown), "<script"@),
{
    lemma_template_opens_no_script();
    let h = html_head();
    let st = html_style();
    let t = html_tail();
    let e1 = html_escaped(project_name);
    let e2 = html_escaped(markdown);
    lemma_html_escaped_has_no_lt(project_name);
    lemma_html_escaped_has_no_lt(markdown);
    let s = html_of(project_name, markdown);
    reveal_strlit("<script");
    if crate::text::contains(s, "<script"@) {
        let i = choose|i: int| crate::text::occurs_at(s, "<script"@, i);
        assert(s.subrange(i, i + 7) == "<script"@);
        assert(s.subrange(i, i + 7)[0] == '<');
        assert(s.subrange(i, i + 7)[1] == 's');
        assert(s.subrange(i, i + 7)[2] == 'c');
        assert(s[i] == '<');
        assert(s[i + 1] == 's');
        assert(s[i + 2] == 'c');
        let a = h.len() as int;
        let b = a + e1.len();
        let c = b + st.len();
        let d = c + e2.len();
        if i < a {
            assert(s[i] == h[i]);
            assert(h[i] == '<');
        } else if i < b {
            assert(s[i] == e1[i - a]);
        } else if i < c {
            assert(s[i] == st[i - b]);
            assert(st[i - b] == '<');
        } else if i < d {
            assert(s[i] == e2[i - c]);
        } else {
            assert(s[i] == t[i - d]);
            assert(t[i - d] == '<');
        }
    }
}

/// Escaped text holds no `<`.
proof fn lemma_html_escaped_has_no_lt(s: Seq<char>)
    ensures
        forall|k: int| 0 <= k < html_escaped(s).len() ==> html_escaped(s)[k] != '<',
{
    reveal_strlit("&amp;");
    reveal_strlit("&quot;");
    reveal_strlit("&lt;");
    reveal_strlit("&gt;");
    let a = replace_char(s, '&', "&amp;"@);
    let b = replace_char(a, '<', "&lt;"@);
    let c = replace_char(b, '>', "&gt;"@);
    lemma_replace_char_avoids(a, '<', "&lt;"@, '<');
    lemma_replace_char_avoids(b, '>', "&gt;"@, '<');
    lemma_replace_char_avoids(c, '"', "&quot;"@, '<');
    let r = html_escaped(s);
    assert forall|k: int| 0 <= k < r.len() implies r[k] != '<' by {
        if r[k] == '<' {
            assert(r.contains('<'));
        }
    }
}

/// A character a PDF base font can show: ASCII, others become `?`.
pub open spec fn pdf_char(c: char) -> char {
    if (c as u32) < 128 {
        c
    } else {
        '?'
    }
}

pub open spec fn pdf_sanitized(s: Seq<char>) -> Seq<char> {
    s.map_values(|c: char| pdf_char(c))
}

/// Replaces non-ASCII characters by `?`.
pub fn sanitize_pdf(value: &str) -> (r: String)
    ensures
        r@ == pdf_sanitized(value@),
{
    let v = crate::text::chars_of(value);
    let mut out = String::new();
    for i in 0..v.len()
        invariant
            v@ == value@,
            out@ == pdf_sanitized(v@.take(i as int)),
    {
        let c = v[i];
        let shown = if (c as u32) < 128 {
            c
        } else {
            '?'
        };
        out.push(shown);
        assert(out@ =~= pdf_sanitized(v@.take(i + 1)));
    }
    assert(v@.take(v.len() as int) =~= v@);
    out
}

/// A line of PDF text with `\`, `(` and `)` escaped.
pub open spec fn pdf_escaped(s: Seq<char>) -> Seq<char> {
    replace_char(replace_char(replace_char(s, '\\', "\\\\"@), '(', "\\("@), ')', "\\)"@)
}

/// The text operator that shows one line and moves to the next.
pub open spec fn pdf_line() -> spec_fn(Seq<char>) -> Seq<char> {
    |l: Seq<char>| "("@ + pdf_escaped(l) + ") Tj T* "@
}

/// The content stream of a page showing `lines` in 10-point Helvetica.
pub open spec fn pdf_page_text(lines: Seq<Seq<char>>) -> Seq<char> {
    "BT /F1 10 Tf 50 750 Td 13 TL "@ + joined(lines, pdf_line()) + "ET"@
}

pub open spec fn string_views(v: Seq<String>) -> Seq<Seq<char>> {
    v.map_values(|s: String| s@)
}

/// The UTF-8 bytes of the content stream of a page.
pub fn pdf_content(lines: &[String]) -> (r: Vec<u8>)
    ensures
        r@ == encode_utf8(pdf_page_text(string_views(lines@))),
{
    let mut content = String::new();
    push_str(&mut content, "BT /F1 10 Tf 50 750 Td 13 TL ");
    let ghost header = content@;
    let ghost views = string_views(lines@);
    for i in 0..lines.len()
        invariant
            views == string_views(lines@),
            header == "BT /F1 10 Tf 50 750 Td 13 TL "@,
            content@ == header + joined(views.take(i as int), pdf_line()),
    {
        let a = str_replace_char(&lines[i], '\\', "\\\\");
        let b = str_replace_char(&a, '(', "\\(");
        let c = str_replace_char(&b, ')', "\\)");
        let ghost before = content@;
        push_str(&mut content, "(");
        push_str(&mut content, &c);
        push_str(&mut content, ") Tj T* ");
        proof {
            assert(views.take(i + 1).drop_last() =~= views.take(i as int));
            assert(views[i as int] == lines@[i as int]@);
            assert(content@ =~= before + pdf_line()(views[i as int]));
        }
    }
    assert(views.take(lines.len() as int) =~= views);
    push_str(&mut content, "ET");
    content.as_str().as_bytes_vec()
}

/// The lines a PDF shows: the sanitized Markdown lines, or the project name
/// alone when the Markdown has none.
pub open spec fn pdf_text_lines(markdown: Seq<char>, project_name: Seq<char>) -> Seq<Seq<char>> {
    let shown = lines(markdown).map_values(|l: Seq<char>| pdf_sanitized(l));
    if shown.len() == 0 {
        seq![project_name]
    } else {
        shown
    }
}

/// The lines of page `k`: the `k`-th run of 48 (the last one may be shorter).
pub open spec fn page_lines(all: Seq<Seq<char>>, k: int) -> Seq<Seq<char>> {
    let lo = 48 * k;
    let hi = if lo + 48 <= all.len() {
        lo + 48
    } else {
        all.len() as int
    };
    all.subrange(lo, hi)
}

/// Number of pages for `n` lines.
pub open spec fn page_count(n: nat) -> nat {
    ((n + 47) / 48) as nat
}

/// The content streams of the pages of a PDF export, 48 lines each. There
/// is always at least one page.
pub fn pdf_pages(bundle: &DocumentationBundle) -> (r: Vec<Vec<u8>>)
    ensures
        r@.len() == page_count(pdf_text_lines(bundle.markdown@, bundle.project_name@).len()),
        r@.len() >= 1,
        forall|k: int|
            0 <= k < r@.len() ==> #[trigger] r@[k]@ == encode_utf8(
                pdf_page_text(page_lines(pdf_text_lines(bundle.markdown@, bundle.project_name@), k)),
            ),
{
    let ghost all = pdf_text_lines(bundle.markdown@, bundle.project_name@);
    let raw = lines_of(&bundle.markdown);
    let mut shown: Vec<String> = Vec::new();
    for i in 0..raw.len()
        invariant
            raw@.len() == lines(bundle.markdown@).len(),
            forall|j: int| 0 <= j < raw@.len() ==> #[trigger] raw@[j]@ == lines(bundle.markdown@)[j],
            shown@.len() == i,
            forall|j: int| 0 <= j < i ==> #[trigger] shown@[j]@ == pdf_sanitized(raw@[j]@),
    {
        shown.push(sanitize_pdf(&raw[i]));
    }
    if shown.len() == 0 {
        shown.push(bundle.project_name.clone());
    }
    assert(string_views(shown@) =~= all);
    let n = shown.len();
    let mut pages: Vec<Vec<u8>> = Vec::new();
    let mut start: usize = 0;
    while start < n
        invariant
            n == shown@.len(),
            n >= 1,
            string_views(shown@) == all,
            start <= n,
            start < n ==> start == 48 * pages@.len(),
            start == n ==> pages@.len() == page_count(n as nat),
            forall|k: int|
                0 <= k < pages@.len() ==> #[trigger] pages@[k]@ == encode_utf8(
                    pdf_page_text(page_lines(all, k)),
                ),
        decreases n + 48 - start,
    {
        let end = if n - start >= 48 {
            start + 48
        } else {
            n
        };
        let mut chunk: Vec<String> = Vec::new();
        for j in start..end
            invariant
                start <= end <= n == shown@.len(),
                chunk@.len() == j - start,
                forall|t: int| 0 <= t < chunk@.len() ==> #[trigger] chunk@[t] == shown@[start + t],
        {
            chunk.push(shown[j].clone());
        }
        let ghost k = pages@.len() as int;
        assert(string_views(chunk@) =~= page_lines(all, k));
        let bytes = pdf_content(chunk.as_slice());
        pages.push(bytes);
        assert(end == n ==> pages@.len() == page_count(n as nat)) by {
            assert(start == 48 * k);
            if end == start + 48 {
                if end == n {
                    let nn = n as int;
                    assert((nn + 47) / 48 == k + 1) by (nonlinear_arith)
                        requires
                            nn == 48 * k + 48,
                    ;
                }
            } else {
                let nn = n as int;
                assert((nn + 47) / 48 == k + 1) by (nonlinear_arith)
                    requires
                        48 * k < nn,
                        nn < 48 * k + 48,
                ;
            }
        }
        start = end;
    }
    pages
}

/// The content streams of the pages of a PDF export of `bundle`.
pub open spec fn pdf_streams(bundle: &DocumentationBundle) -> Seq<Seq<u8>> {
    let all = pdf_text_lines(bundle.markdown@, bundle.project_name@);
    Seq::new(page_count(all.len()), |k: int| encode_utf8(pdf_page_text(page_lines(all, k))))
}

/// The layout of exported pages: PDF 1.5, letter-sized (612 by 792
/// points), with Helvetica as the font `F1` that `pdf_page_text` uses.
pub fn export_layout() -> (r: PdfLayout)
    ensures
        r.version@ == "1.5"@,
        r.font_name@ == "F1"@,
        r.base_font@ == "Helvetica"@,
        r.width == 612,
        r.height == 792,
{
    PdfLayout {
        version: "1.5".to_owned(),
        font_name: "F1".to_owned(),
        base_font: "Helvetica".to_owned(),
        width: 612,
        height: 792,
    }
}

/// The PDF file exported for `bundle`.
pub open spec fn exported_pdf(bundle: &DocumentationBundle) -> Seq<u8> {
    pdf_file("1.5"@, "F1"@, "Helvetica"@, 612, 792, pdf_streams(bundle))
}

/// Number of pages of the PDF export of `bundle`.
pub fn pdf_page_total(bundle: &DocumentationBundle) -> (r: usize)
    ensures
        r == pdf_streams(bundle).len(),
{
    let raw = lines_of(&bundle.markdown);
    let n = if raw.len() == 0 {
        1
    } else {
        raw.len()
    };
    let ghost all = pdf_text_lines(bundle.markdown@, bundle.project_name@);
    assert(all.len() == n);
    let q = n / 48;
    let total = if n % 48 == 0 {
        q
    } else {
        q + 1
    };
    assert(total == (n + 47) / 48) by (nonlinear_arith)
        requires
            q == n / 48,
            n >= 1,
            n % 48 == 0 ==> total == q,
            n % 48 != 0 ==> total == q + 1,
    ;
    total
}

/// The PDF file of a documentation bundle: one page per 48 lines (at least
/// one page).
pub fn pdf(bundle: &DocumentationBundle) -> (r: Vec<u8>)
    requires
        pdf_streams(bundle).len() <= PDF_PAGE_LIMIT,
    ensures
        r@ == exported_pdf(bundle),
{
    let pages = pdf_pages(bundle);
    assert(byte_views(pages@) =~= pdf_streams(bundle));
    pdf_document(&export_layout(), &pages)
}

/// What an export writes to its destination.
pub enum ExportContents {
    /// A text file.
    Text(String),
    /// A PDF file.
    Pdf(Vec<u8>),
}

/// Chooses what to write for an export format.
pub fn export_contents(bundle: &DocumentationBundle, format: ExportFormat) -> (r: ExportContents)
    requires
        format == ExportFormat::Pdf ==> pdf_streams(bundle).len() <= PDF_PAGE_LIMIT,
    ensures
        format == ExportFormat::Markdown ==> (r matches ExportContents::Text(t) && t@
            == bundle.markdown@),
        format == ExportFormat::Html ==> (r matches ExportContents::Text(t) && t@ == html_of(
            bundle.project_name@,
            bundle.markdown@,
        )),
        format == ExportFormat::Pdf ==> (r matches ExportContents::Pdf(b) && b@ == exported_pdf(
            bundle,
        )),
{
    match format {
        ExportFormat::Markdown => ExportContents::Text(bundle.markdown.clone()),
        ExportFormat::Html => ExportContents::Text(html(bundle)),
        ExportFormat::Pdf => ExportContents::Pdf(pdf(bundle)),
    }
}

/// The error reported when an export cannot be written.
pub fn export_error(detail: &str) -> (r: AnalysisError)
    ensures
        r.code@ == "exportFailed"@,
        r.message@ == "Could not export documentation: "@ + detail@,
{
    AnalysisError::new("exportFailed", concat("Could not export documentation: ", detail))
}

} // verus!
