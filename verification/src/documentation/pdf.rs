//! Assembling a PDF file from page content streams with lopdf.
use lopdf::{Dictionary, Object, Stream};
use vstd::prelude::*;

verus! {

#[verifier::external_type_specification]
#[verifier::external_body]
pub struct ExPdfDocument(lopdf::Document);

#[verifier::external_type_specification]
#[verifier::external_body]
pub struct ExPdfDictionary(lopdf::Dictionary);

/// The most pages a PDF can have here: lopdf numbers objects with a `u32`
/// and panics past `u32::MAX`; a file takes two numbers per page and four
/// more (page tree, font, catalog and cross-reference stream).
pub const PDF_PAGE_LIMIT: usize = 2147483645;

/// How the pages of a PDF look: the PDF version, the resource name and
/// base font of the one font the content streams use, and the page size
/// in points.
pub struct PdfLayout {
    pub version: String,
    pub font_name: String,
    pub base_font: String,
    pub width: u32,
    pub height: u32,
}

impl Clone for PdfLayout {
    fn clone(&self) -> (r: Self)
        ensures
            r == *self,
    {
        PdfLayout {
            version: self.version.clone(),
            font_name: self.font_name.clone(),
            base_font: self.base_font.clone(),
            width: self.width,
            height: self.height,
        }
    }
}

/// The bytes lopdf writes for a document of this version whose catalog's
/// page tree holds one page of size `width` by `height` per content stream,
/// in order, each with the Type1 font `base_font` as resource `font_name`,
/// its streams compressed. lopdf writes its objects by number and puts no
/// date or random identifier in the file, so the bytes depend on these
/// values alone.
pub uninterp spec fn pdf_file(
    version: Seq<char>,
    font_name: Seq<char>,
    base_font: Seq<char>,
    width: u32,
    height: u32,
    pages: Seq<Seq<u8>>,
) -> Seq<u8>;

/// The byte views of a list of content streams.
pub open spec fn byte_views(pages: Seq<Vec<u8>>) -> Seq<Seq<u8>> {
    pages.map_values(|p: Vec<u8>| p@)
}

/// The file of `pages` laid out as `layout`.
pub open spec fn pdf_file_of(layout: PdfLayout, pages: Seq<Seq<u8>>) -> Seq<u8> {
    pdf_file(layout.version@, layout.font_name@, layout.base_font@, layout.width, layout.height, pages)
}

/// A PDF document being assembled: its layout, page tree, font and the
/// content streams of the pages added so far. The fields are private to
/// this module, where a builder is only made by `new` and grown by
/// `add_page`, so the document always holds exactly the pages recorded.
pub struct PdfBuilder {
    document: lopdf::Document,
    layout: PdfLayout,
    pages_id: (u32, u16),
    resources: Dictionary,
    kids: Vec<(u32, u16)>,
    contents: Vec<Vec<u8>>,
}

/// A finished PDF document and what it was made of; only made by
/// `PdfBuilder::finish`.
pub struct PdfFile {
    document: lopdf::Document,
    layout: PdfLayout,
    contents: Vec<Vec<u8>>,
}

impl PdfBuilder {
    /// The content streams of the pages added so far, in order.
    pub closed spec fn contents(&self) -> Seq<Seq<u8>> {
        byte_views(self.contents@)
    }

    pub closed spec fn layout(&self) -> PdfLayout {
        self.layout
    }

    /// Starts a document of the layout's version (`Document::with_version`)
    /// with an object number kept for the page tree (`new_object_id`), the
    /// layout's font (`add_object`) and the page resources naming it.
    /// Trusted: it has no pages yet.
    #[verifier::external_body]
    pub fn new(layout: &PdfLayout) -> (r: PdfBuilder)
        ensures
            r.contents() == Seq::<Seq<u8>>::empty(),
            r.layout() == *layout,
    {
        let mut document = lopdf::Document::with_version(layout.version.as_str());
        let pages_id = document.new_object_id();
        let base = layout.base_font.as_str();
        let font = [("Type", Object::from("Font")), ("Subtype", "Type1".into()), ("BaseFont", base.into())];
        let font_id = document.add_object(Dictionary::from_iter(font));
        let fonts = Dictionary::from_iter([(layout.font_name.as_str(), Object::from(font_id))]);
        let resources = Dictionary::from_iter([("Font", Object::from(fonts))]);
        let layout = layout.clone();
        PdfBuilder { document, layout, pages_id, resources, kids: Vec::new(), contents: Vec::new() }
    }

    /// Adds a page with this content stream (`add_object` of the stream and
    /// of a page of the layout's size under the page tree). Trusted: the
    /// page comes after the ones added before. Below the page limit lopdf
    /// has object numbers left.
    #[verifier::external_body]
    pub fn add_page(&mut self, content: Vec<u8>)
        requires
            old(self).contents().len() < PDF_PAGE_LIMIT,
        ensures
            final(self).contents() == old(self).contents().push(content@),
            final(self).layout() == old(self).layout(),
    {
        let stream = self.document.add_object(Stream::new(Dictionary::new(), content.clone()));
        let (width, height) = (self.layout.width, self.layout.height);
        let size: Vec<Object> = vec![0.into(), 0.into(), width.into(), height.into()];
        let page = [("Type", Object::from("Page")), ("Parent", self.pages_id.into()), ("MediaBox", size.into())];
        let mut page = Dictionary::from_iter(page);
        page.set("Contents", stream);
        page.set("Resources", self.resources.clone());
        self.kids.push(self.document.add_object(page));
        self.contents.push(content);
    }

    /// Fills in the page tree and adds the catalog, which the trailer names
    /// as its root (`add_object`, `Dictionary::set`). Trusted: the file is
    /// made of the pages added, with this layout.
    #[verifier::external_body]
    pub fn finish(self) -> (r: PdfFile)
        requires
            self.contents().len() <= PDF_PAGE_LIMIT,
        ensures
            r.contents() == self.contents(),
            r.layout() == self.layout(),
    {
        let mut document = self.document;
        let kids: Vec<Object> = self.kids.iter().copied().map(Object::Reference).collect();
        let count = Object::Integer(self.kids.len() as i64);
        let tree = [("Type", Object::from("Pages")), ("Kids", kids.into()), ("Count", count)];
        document.objects.insert(self.pages_id, Object::Dictionary(Dictionary::from_iter(tree)));
        let catalog = [("Type", Object::from("Catalog")), ("Pages", self.pages_id.into())];
        let catalog_id = document.add_object(Dictionary::from_iter(catalog));
        document.trailer.set("Root", catalog_id);
        PdfFile { document, layout: self.layout, contents: self.contents }
    }
}

impl PdfFile {
    pub closed spec fn contents(&self) -> Seq<Seq<u8>> {
        byte_views(self.contents@)
    }

    pub closed spec fn layout(&self) -> PdfLayout {
        self.layout
    }

    /// Compresses the streams (`Document::compress`) and writes the file
    /// into memory (`Document::save_to`). Trusted: the write succeeds and
    /// gives `pdf_file` of the layout and pages. lopdf's writer fails only
    /// on an error of its target, which a `Vec` never gives, on object
    /// numbers past `u32::MAX`, which the page limit rules out, and for
    /// ASCII or encrypted output, which is not asked for.
    #[verifier::external_body]
    pub fn bytes(self) -> (r: Result<Vec<u8>, String>)
        ensures
            r is Ok,
            r matches Ok(b) ==> b@ == pdf_file(
                self.layout().version@,
                self.layout().font_name@,
                self.layout().base_font@,
                self.layout().width,
                self.layout().height,
                self.contents(),
            ),
    {
        let mut document = self.document;
        document.compress();
        let mut bytes: Vec<u8> = Vec::new();
        document.save_to(&mut bytes).map(|_| bytes).map_err(|error| error.to_string())
    }
}

/// The PDF file with one page per content stream, in order.
pub fn pdf_document(layout: &PdfLayout, pages: &Vec<Vec<u8>>) -> (r: Vec<u8>)
    requires
        pages@.len() <= PDF_PAGE_LIMIT,
    ensures
        r@ == pdf_file_of(*layout, byte_views(pages@)),
{
    let mut builder = PdfBuilder::new(layout);
    for i in 0..pages.len()
        invariant
            pages@.len() <= PDF_PAGE_LIMIT,
            builder.contents() == byte_views(pages@).take(i as int),
            builder.layout() == *layout,
    {
        builder.add_page(pages[i].clone());
        assert(byte_views(pages@).take(i + 1) =~= byte_views(pages@).take(i as int).push(
            pages@[i as int]@,
        ));
    }
    assert(byte_views(pages@).take(pages@.len() as int) =~= byte_views(pages@));
    match builder.finish().bytes() {
        Ok(bytes) => bytes,
        Err(_) => {
            proof {
                assert(false);
            }
            Vec::new()
        },
    }
}

} // verus!
