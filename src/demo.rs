//! Two complete documents built with the library: a page with text, a link
//! and a curve, and a page with one centered image.
use vstd::prelude::*;
use vstd::slice::slice_to_vec;
use crate::bytes::{escaped, lit};
use crate::content::{name_operand, num, op_bytes, ops_bytes, Content, LineCap, LineJoin, Op};
use crate::document::{document_bytes, refs_resolve, DocState, Document, ObjectId, PdfError};
use crate::image::{
    color_space_for, color_stream, embed_encoded, encode_error, encode_image, filter_for,
    image_bytes, mask_stream, opt_bytes, place_image, ColorSpace, DecodedImage, EncodedImage,
    Filter, PixelLayout, Placement, SourceFormat, DEFAULT_LEVEL,
};
use crate::objects::{
    catalog, catalog_bytes, font_bytes, rect_bytes, ref_bytes, stream, stream_bytes, tree_bytes,
    type1_font, Kid, PageTree, Rect,
};
use crate::page::{
    action_part, annotations_bytes, border_part, color_part, contents_part, page_bytes,
    subtype_bytes, Annotation, Annotations, AnnotationType, BorderType, PageBuilder,
};

verus! {

/// The A4 page, in thousandths of a unit.
pub open spec fn a4() -> Rect {
    Rect { x1: 0, y1: 0, x2: 595000, y2: 842000 }
}

/// The content of the sample text page: a line of text in font `F1`, then a
/// stroked path drawn inside a saved graphics state.
pub open spec fn hello_content() -> Seq<u8> {
    op_bytes(Op::BeginText) + name_operand(lit("F1")) + num(14000) + lit("Tf\n") + op_bytes(
        Op::NextLine(108000, 734000),
    ) + seq![40u8] + escaped(lit("Hello World from Rust!")) + seq![41u8] + lit(" Tj\n") + op_bytes(
        Op::EndText,
    ) + op_bytes(Op::SaveState) + op_bytes(Op::SetLineWidth(1000)) + op_bytes(
        Op::SetLineJoin(LineJoin::Miter),
    ) + op_bytes(Op::SetLineCap(LineCap::Butt)) + op_bytes(Op::SetStrokeRgb(500, 0, 1000))
        + op_bytes(Op::MoveTo(100000, 200000)) + op_bytes(Op::LineTo(200000, 500000)) + op_bytes(
        Op::LineTo(10000, 200000),
    ) + op_bytes(Op::CubicTo(40000, 250000, 100000, 300000, 150000, 200000)) + op_bytes(
        Op::LineTo(0, 0),
    ) + op_bytes(Op::Stroke) + op_bytes(Op::RestoreState)
}

/// The link annotation of the sample text page.
pub open spec fn hello_link() -> Seq<u8> {
    lit("<< /Type /Annot /Subtype /") + subtype_bytes(AnnotationType::Link) + lit(" /Rect ")
        + rect_bytes(Rect { x1: 215000, y1: 730000, x2: 251000, y2: 748000 }) + contents_part(
        Some(lit("Link to the Rust project web page")),
    ) + color_part(Some((0, 0, 1000))) + action_part(Some(lit("https://www.rust-lang.org/")))
        + border_part(Some((2000, BorderType::Underline))) + lit(" >>")
}

/// The link annotation of the sample text page: an underlined link to the
/// Rust project's web page.
fn hello_link_annotation() -> (r: Annotation)
    ensures
        r.rect.valid(),
        crate::page::annotation_bytes(r) == hello_link(),
{
    let mut link = Annotation::new(
        AnnotationType::Link,
        Rect { x1: 215000, y1: 730000, x2: 251000, y2: 748000 },
    );
    link.contents = Some(slice_to_vec("Link to the Rust project web page".as_bytes()));
    link.color = Some((0, 0, 1000));
    link.uri = Some(slice_to_vec("https://www.rust-lang.org/".as_bytes()));
    link.border = Some((2000, BorderType::Underline));
    assert(crate::page::opt_view(link.contents) == Some(lit("Link to the Rust project web page")));
    assert(crate::page::opt_view(link.uri) == Some(lit("https://www.rust-lang.org/")));
    link
}

/// Adds the sample link to an empty annotation list.
fn add_hello_link(annotations: &mut Annotations) -> (r: Result<(), PdfError>)
    requires
        old(annotations).items() == Seq::<Seq<u8>>::empty(),
    ensures
        r is Ok,
        final(annotations).items() == seq![hello_link()],
{
    let link = hello_link_annotation();
    let r = annotations.push(&link);
    assert(annotations.items() =~= seq![hello_link()]);
    r
}

/// A resource map with the one font `F1`.
pub open spec fn hello_resources(font: ObjectId) -> Seq<u8> {
    lit("<<") + lit(" /Font") + lit(" <<") + lit(" /") + lit("F1") + seq![32u8] + ref_bytes(font)
        + lit(" >>") + lit(" >>")
}

proof fn lemma_hello_resources(fonts: Seq<crate::page::Entry>, images: Seq<crate::page::Entry>, font: ObjectId)
    requires
        fonts.len() == 1,
        fonts[0].name@ == lit("F1"),
        fonts[0].id == font,
        images.len() == 0,
    ensures
        crate::page::resources_bytes(fonts, images) == hello_resources(font),
{
    assert(fonts.drop_last() =~= Seq::<crate::page::Entry>::empty());
    assert(crate::page::entries_bytes(fonts.drop_last()) =~= Seq::<u8>::empty());
    assert(fonts.last() == fonts[0]);
    assert(crate::page::entries_bytes(fonts) =~= lit(" /") + lit("F1") + seq![32u8] + ref_bytes(font));
    assert(crate::page::category_bytes(lit(" /XObject"), images) =~= Seq::<u8>::empty());
    assert(crate::page::resources_bytes(fonts, images) =~= hello_resources(font));
}

/// The sample text page's dictionary.
#[verifier::rlimit(100)]
fn hello_page(tree_id: ObjectId, content_id: ObjectId, font_id: ObjectId) -> (r: Result<
    Vec<u8>,
    PdfError,
>)
    ensures
        r is Ok,
        r->Ok_0@ == page_bytes(
            a4(),
            tree_id,
            Some(content_id),
            Some(hello_resources(font_id)),
            Some(annotations_bytes(seq![hello_link()])),
        ),
{
    let mut page = PageBuilder::new();
    page.media_box(Rect { x1: 0, y1: 0, x2: 595000, y2: 842000 });
    page.parent(tree_id);
    page.contents(content_id);
    let mut annotations = page.annotations();
    if let Err(e) = add_hello_link(&mut annotations) {
        return Err(e);
    }
    page.end_annotations(&annotations);
    let mut resources = page.resources();
    let font_name = slice_to_vec("F1".as_bytes());
    resources.font(font_name, font_id);
    page.end_resources(&resources);
    proof {
        lemma_hello_resources(resources.fonts(), resources.images(), font_id);
    }
    assert(annotations.items() =~= seq![hello_link()]);
    page.finish()
}

/// The bytes of the sample text page's content.
#[verifier::rlimit(50)]
fn hello_content_stream() -> (r: Vec<u8>)
    ensures
        r@ == hello_content(),
{
    let mut content = Content::new();
    content.push(Op::BeginText);
    content.push(Op::SetFont(slice_to_vec("F1".as_bytes()), 14000));
    content.push(Op::NextLine(108000, 734000));
    content.push(Op::Show(slice_to_vec("Hello World from Rust!".as_bytes())));
    content.push(Op::EndText);
    content.push(Op::SaveState);
    content.push(Op::SetLineWidth(1000));
    content.push(Op::SetLineJoin(LineJoin::Miter));
    content.push(Op::SetLineCap(LineCap::Butt));
    content.push(Op::SetStrokeRgb(500, 0, 1000));
    content.push(Op::MoveTo(100000, 200000));
    content.push(Op::LineTo(200000, 500000));
    content.push(Op::LineTo(10000, 200000));
    content.push(Op::CubicTo(40000, 250000, 100000, 300000, 150000, 200000));
    content.push(Op::LineTo(0, 0));
    content.push(Op::Stroke);
    content.push(Op::RestoreState);
    let drawn = content.finish();
    assert(drawn@ =~= hello_content());
    drawn
}

/// The content that draws the image named `Im1` at a placement.
pub open spec fn image_content(p: Placement) -> Seq<u8> {
    lit("q\n") + op_bytes(Op::Transform(p.width, 0, 0, p.height, p.x, p.y)) + name_operand(
        lit("Im1"),
    ) + lit("Do\n") + lit("Q\n")
}

/// Where the sample image document draws an image of `px_w` by `px_h`
/// pixels: 200 units wide, centered on the A4 page.
pub open spec fn sample_placement(px_w: u32, px_h: u32) -> Placement {
    let h = 200000 * px_h / (px_w as int);
    Placement { width: 200000, height: h as i64, x: 197500, y: ((842000 - h) / 2) as i64 }
}

proof fn lemma_four_ops(s: Seq<Op>)
    requires
        s.len() == 4,
    ensures
        ops_bytes(s) == op_bytes(s[0]) + op_bytes(s[1]) + op_bytes(s[2]) + op_bytes(s[3]),
{
    let s3 = s.drop_last();
    let s2 = s3.drop_last();
    let s1 = s2.drop_last();
    let s0 = s1.drop_last();
    assert(s0.len() == 0);
    assert(ops_bytes(s0) =~= Seq::<u8>::empty());
    assert(ops_bytes(s1) =~= op_bytes(s[0]));
    assert(s1.last() == s[0] && s2.last() == s[1] && s3.last() == s[2] && s.last() == s[3]);
    assert(ops_bytes(s2) == ops_bytes(s1) + op_bytes(s[1]));
    assert(ops_bytes(s3) == ops_bytes(s2) + op_bytes(s[2]));
    assert(ops_bytes(s) == ops_bytes(s3) + op_bytes(s[3]));
    assert(ops_bytes(s) =~= op_bytes(s[0]) + op_bytes(s[1]) + op_bytes(s[2]) + op_bytes(s[3]));
}

/// The bytes of the content that draws the image `Im1` at `at`.
fn image_content_stream(at: Placement) -> (r: Vec<u8>)
    ensures
        r@ == image_content(at),
{
    let mut content = Content::new();
    content.push(Op::SaveState);
    content.push(Op::Transform(at.width, 0, 0, at.height, at.x, at.y));
    content.push(Op::XObject(slice_to_vec("Im1".as_bytes())));
    content.push(Op::RestoreState);
    let ghost ops = content.ops();
    let drawn = content.finish();
    proof {
        lemma_four_ops(ops);
        assert(drawn@ =~= image_content(at));
    }
    drawn
}

/// A resource map with the one image `Im1`.
pub open spec fn image_resources(image: ObjectId) -> Seq<u8> {
    lit("<<") + lit(" /XObject") + lit(" <<") + lit(" /") + lit("Im1") + seq![32u8] + ref_bytes(
        image,
    ) + lit(" >>") + lit(" >>")
}

proof fn lemma_image_resources(
    fonts: Seq<crate::page::Entry>,
    images: Seq<crate::page::Entry>,
    image: ObjectId,
)
    requires
        fonts.len() == 0,
        images.len() == 1,
        images[0].name@ == lit("Im1"),
        images[0].id == image,
    ensures
        crate::page::resources_bytes(fonts, images) == image_resources(image),
{
    assert(images.drop_last() =~= Seq::<crate::page::Entry>::empty());
    assert(crate::page::entries_bytes(images.drop_last()) =~= Seq::<u8>::empty());
    assert(images.last() == images[0]);
    assert(crate::page::entries_bytes(images) =~= lit(" /") + lit("Im1") + seq![32u8] + ref_bytes(
        image,
    ));
    assert(crate::page::category_bytes(lit(" /Font"), fonts) =~= Seq::<u8>::empty());
    assert(crate::page::resources_bytes(fonts, images) =~= image_resources(image));
}

/// The page of the sample image document.
fn image_page(tree_id: ObjectId, content_id: ObjectId, image_id: ObjectId) -> (r: Result<
    Vec<u8>,
    PdfError,
>)
    ensures
        r is Ok,
        r->Ok_0@ == page_bytes(
            a4(),
            tree_id,
            Some(content_id),
            Some(image_resources(image_id)),
            None,
        ),
{
    let mut page = PageBuilder::new();
    page.media_box(Rect { x1: 0, y1: 0, x2: 595000, y2: 842000 });
    page.parent(tree_id);
    page.contents(content_id);
    let mut resources = page.resources();
    resources.x_object(slice_to_vec("Im1".as_bytes()), image_id);
    page.end_resources(&resources);
    proof {
        lemma_image_resources(resources.fonts(), resources.images(), image_id);
    }
    page.finish()
}

/// The objects of the sample image document, slot by slot.
pub open spec fn image_doc_bodies(
    width: u32,
    height: u32,
    layout: PixelLayout,
    pixels: Seq<u8>,
    format: SourceFormat,
    source: Seq<u8>,
) -> Seq<Option<Seq<u8>>> {
    let color = color_stream(layout, pixels, format, source, DEFAULT_LEVEL);
    let f = filter_for(format);
    let mask = mask_stream(layout, pixels, DEFAULT_LEVEL);
    let mask_ref: Option<ObjectId> = match mask {
        Some(_) => Some(ObjectId { num: 5 }),
        None => None,
    };
    seq![
        Some(catalog_bytes(ObjectId { num: 2 })),
        Some(tree_bytes(None, seq![Kid::Page(ObjectId { num: 3 })], 1)),
        Some(
            page_bytes(
                a4(),
                ObjectId { num: 2 },
                Some(ObjectId { num: 6 }),
                Some(image_resources(ObjectId { num: 4 })),
                None,
            ),
        ),
        Some(image_bytes(width, height, color_space_for(layout), f, color, mask_ref)),
        match mask {
            Some(m) => Some(image_bytes(width, height, ColorSpace::DeviceGray, f, m, None)),
            None => None,
        },
        Some(stream_bytes(image_content(sample_placement(width, height)))),
    ]
}

/// The first objects of the sample image document: catalog, page tree, a
/// reserved page slot, the image, its mask or a free slot, and a reserved
/// content slot.
pub open spec fn start_bodies(
    width: u32,
    height: u32,
    cs: ColorSpace,
    f: Filter,
    color: Seq<u8>,
    mask: Option<Seq<u8>>,
) -> Seq<Option<Seq<u8>>> {
    let mask_ref: Option<ObjectId> = match mask {
        Some(_) => Some(ObjectId { num: 5 }),
        None => None,
    };
    seq![
        Some(catalog_bytes(ObjectId { num: 2 })),
        Some(tree_bytes(None, seq![Kid::Page(ObjectId { num: 3 })], 1)),
        None,
        Some(image_bytes(width, height, cs, f, color, mask_ref)),
        match mask {
            Some(m) => Some(image_bytes(width, height, ColorSpace::DeviceGray, f, m, None)),
            None => None,
        },
        None,
    ]
}

proof fn lemma_text_refs(b: Seq<Option<Seq<u8>>>, refs: Seq<Seq<ObjectId>>)
    requires
        b.len() == 5,
        refs.len() == 5,
        forall|k: int| 0 <= k < 5 ==> b[k] is Some,
        refs[0] == seq![ObjectId { num: 2 }],
        refs[1] == seq![ObjectId { num: 3 }],
        refs[2] == seq![ObjectId { num: 2 }, ObjectId { num: 5 }, ObjectId { num: 4 }],
        refs[3] == Seq::<ObjectId>::empty(),
        refs[4] == Seq::<ObjectId>::empty(),
    ensures
        refs_resolve(b, refs),
{
    assert forall|k: int, j: int|
        0 <= k < b.len() && b[k] is Some && 0 <= j < refs[k].len() implies crate::document::stored(
        b,
        #[trigger] refs[k][j],
    ) by {
        if k == 2 {
            assert(refs[k][j].num == 2 || refs[k][j].num == 5 || refs[k][j].num == 4);
        }
    }
}

/// The references recorded for `start_bodies`.
pub open spec fn start_refs(has_mask: bool) -> Seq<Seq<ObjectId>> {
    seq![
        seq![ObjectId { num: 2 }],
        seq![ObjectId { num: 3 }],
        Seq::empty(),
        if has_mask {
            seq![ObjectId { num: 5 }]
        } else {
            Seq::empty()
        },
        Seq::empty(),
        Seq::empty(),
    ]
}

/// A fresh document with the catalog, the page tree and the image objects of
/// the sample image document in place.
#[verifier::rlimit(100)]
fn image_doc_start(width: u32, height: u32, enc: &EncodedImage) -> (r: Result<Document, PdfError>)
    ensures
        r is Ok,
        r->Ok_0.wf(),
        r->Ok_0.state() == DocState::Building,
        r->Ok_0.root() == None::<nat>,
        r->Ok_0.references() == start_refs(enc.mask is Some),
        r->Ok_0.bodies() == start_bodies(
            width,
            height,
            enc.color_space,
            enc.filter,
            enc.color@,
            opt_bytes(enc.mask),
        ),
{
    let mut doc = Document::new();
    let catalog_id = match doc.allocate() {
        Ok(id) => id,
        Err(e) => {
            return Err(e);
        },
    };
    let tree_id = match doc.allocate() {
        Ok(id) => id,
        Err(e) => {
            return Err(e);
        },
    };
    let page_id = match doc.allocate() {
        Ok(id) => id,
        Err(e) => {
            return Err(e);
        },
    };
    if let Err(e) = doc.insert(catalog_id, catalog(tree_id), crate::document::refs1(tree_id)) {
        return Err(e);
    }
    let mut tree = PageTree::new();
    tree.push_page(page_id);
    assert(tree.kids() =~= seq![Kid::Page(ObjectId { num: 3 })]);
    if let Err(e) = doc.insert(tree_id, tree.finish(None), crate::document::refs1(page_id)) {
        return Err(e);
    }
    if let Err(e) = embed_encoded(&mut doc, width, height, enc) {
        return Err(e);
    }
    if enc.mask.is_none() {
        // The mask's number stays reserved, and free, without alpha.
        if let Err(e) = doc.allocate() {
            return Err(e);
        }
    }
    if let Err(e) = doc.allocate() {
        return Err(e);
    }
    assert(doc.bodies() =~= start_bodies(
        width,
        height,
        enc.color_space,
        enc.filter,
        enc.color@,
        opt_bytes(enc.mask),
    ));
    assert(doc.references() =~= start_refs(enc.mask is Some));
    Ok(doc)
}

proof fn lemma_image_doc_bodies(
    width: u32,
    height: u32,
    layout: PixelLayout,
    pixels: Seq<u8>,
    format: SourceFormat,
    source: Seq<u8>,
)
    ensures
        start_bodies(
            width,
            height,
            color_space_for(layout),
            filter_for(format),
            color_stream(layout, pixels, format, source, DEFAULT_LEVEL),
            mask_stream(layout, pixels, DEFAULT_LEVEL),
        ).update(
            2,
            Some(
                page_bytes(
                    a4(),
                    ObjectId { num: 2 },
                    Some(ObjectId { num: 6 }),
                    Some(image_resources(ObjectId { num: 4 })),
                    None,
                ),
            ),
        ).update(5, Some(stream_bytes(image_content(sample_placement(width, height)))))
            == image_doc_bodies(width, height, layout, pixels, format, source),
{
    assert(start_bodies(
        width,
        height,
        color_space_for(layout),
        filter_for(format),
        color_stream(layout, pixels, format, source, DEFAULT_LEVEL),
        mask_stream(layout, pixels, DEFAULT_LEVEL),
    ).update(
        2,
        Some(
            page_bytes(
                a4(),
                ObjectId { num: 2 },
                Some(ObjectId { num: 6 }),
                Some(image_resources(ObjectId { num: 4 })),
                None,
            ),
        ),
    ).update(5, Some(stream_bytes(image_content(sample_placement(width, height)))))
        =~= image_doc_bodies(width, height, layout, pixels, format, source));
}

/// Builds sample documents.
pub struct WasmApp {}

impl WasmApp {
    pub fn new() -> (r: WasmApp) {
        WasmApp {  }
    }

    /// A one-page A4 document: a line of text in a built-in font, a link
    /// annotation with an underline border, and a stroked path. Objects 1 to 5
    /// are the catalog, the page tree, the page, the font and the content.
    #[verifier::rlimit(100)]
    pub fn get_pdf(&mut self) -> (r: Result<Vec<u8>, PdfError>)
        ensures
            r is Ok,
            exists|b: Seq<Option<Seq<u8>>>|
                {
                    &&& r->Ok_0@ == document_bytes(b, 1)
                    &&& b.len() == 5
                    &&& b[0] == Some(catalog_bytes(ObjectId { num: 2 }))
                    &&& b[1] == Some(
                        tree_bytes(None, seq![Kid::Page(ObjectId { num: 3 })], 1),
                    )
                    &&& b[2] == Some(
                        page_bytes(
                            a4(),
                            ObjectId { num: 2 },
                            Some(ObjectId { num: 5 }),
                            Some(hello_resources(ObjectId { num: 4 })),
                            Some(annotations_bytes(seq![hello_link()])),
                        ),
                    )
                    &&& b[3] == Some(font_bytes(lit("Helvetica")))
                    &&& b[4] == Some(stream_bytes(hello_content()))
                },
    {
        let mut doc = Document::new();
        let catalog_id = match doc.allocate() {
            Ok(id) => id,
            Err(e) => {
                return Err(e);
            },
        };
        let tree_id = match doc.allocate() {
            Ok(id) => id,
            Err(e) => {
                return Err(e);
            },
        };
        let page_id = match doc.allocate() {
            Ok(id) => id,
            Err(e) => {
                return Err(e);
            },
        };
        let font_id = match doc.allocate() {
            Ok(id) => id,
            Err(e) => {
                return Err(e);
            },
        };
        let content_id = match doc.allocate() {
            Ok(id) => id,
            Err(e) => {
                return Err(e);
            },
        };

        if let Err(e) = doc.insert(catalog_id, catalog(tree_id), crate::document::refs1(tree_id)) {
            return Err(e);
        }
        let mut tree = PageTree::new();
        tree.push_page(page_id);
        assert(tree.kids() =~= seq![Kid::Page(ObjectId { num: 3 })]);
        if let Err(e) = doc.insert(tree_id, tree.finish(None), crate::document::refs1(page_id)) {
            return Err(e);
        }

        let page_body = match hello_page(tree_id, content_id, font_id) {
            Ok(b) => b,
            Err(e) => {
                return Err(e);
            },
        };
        if let Err(e) = doc.insert(page_id, page_body, crate::document::refs3(tree_id, content_id, font_id)) {
            return Err(e);
        }

        let helvetica = slice_to_vec("Helvetica".as_bytes());
        if let Err(e) = doc.insert(font_id, type1_font(&helvetica), Vec::new()) {
            return Err(e);
        }

        let drawn = hello_content_stream();
        if let Err(e) = doc.insert(content_id, stream(&drawn), Vec::new()) {
            return Err(e);
        }
        if let Err(e) = doc.set_root(catalog_id) {
            return Err(e);
        }
        proof {
            doc.lemma_lengths();
            lemma_text_refs(doc.bodies(), doc.references());
        }
        let out = doc.finish();
        proof {
            reveal_strlit("Helvetica");
        }
        out
    }

    /// A one-page A4 document showing one image, 200 units wide, its height
    /// following its aspect ratio, centered on the page. Objects 1 to 3 are
    /// the catalog, the page tree and the page; object 4 is the image, object
    /// 5 its soft mask when the image has alpha (else a free entry), and
    /// object 6 the content that draws it.
    #[verifier::rlimit(100)]
    pub fn get_pdf_image(img: &DecodedImage, format: SourceFormat, source: &Vec<u8>) -> (r: Result<
        Vec<u8>,
        PdfError,
    >)
        ensures
            encode_error(img.width, img.height, img.layout, img.pixels@.len(), format) is Some ==> r
                == Err::<Vec<u8>, PdfError>(
                encode_error(img.width, img.height, img.layout, img.pixels@.len(), format)->0,
            ),
            encode_error(img.width, img.height, img.layout, img.pixels@.len(), format) is None ==> r
                is Ok && r->Ok_0@ == document_bytes(
                image_doc_bodies(img.width, img.height, img.layout, img.pixels@, format, source@),
                1,
            ),
    {
        let enc = match encode_image(img, format, source, DEFAULT_LEVEL) {
            Ok(e) => e,
            Err(e) => {
                return Err(e);
            },
        };
        let mut doc = match image_doc_start(img.width, img.height, &enc) {
            Ok(d) => d,
            Err(e) => {
                return Err(e);
            },
        };
        let tree_id = ObjectId { num: 2 };
        let page_id = ObjectId { num: 3 };
        let image_id = ObjectId { num: 4 };
        let content_id = ObjectId { num: 6 };
        let page_body = match image_page(tree_id, content_id, image_id) {
            Ok(b) => b,
            Err(e) => {
                return Err(e);
            },
        };
        if let Err(e) = doc.insert(page_id, page_body, crate::document::refs3(tree_id, content_id, image_id)) {
            return Err(e);
        }

        let at = match place_image(595000, 842000, 200000, img.width, img.height) {
            Ok(p) => p,
            Err(e) => {
                return Err(e);
            },
        };
        assert(at == sample_placement(img.width, img.height));
        let drawn = image_content_stream(at);
        if let Err(e) = doc.insert(content_id, stream(&drawn), Vec::new()) {
            return Err(e);
        }
        if let Err(e) = doc.set_root(ObjectId { num: 1 }) {
            return Err(e);
        }
        proof {
            lemma_image_doc_bodies(img.width, img.height, img.layout, img.pixels@, format, source@);
        }
        assert(refs_resolve(doc.bodies(), doc.references())) by {
            assert(doc.references() =~= start_refs(enc.mask is Some).update(
                2,
                seq![tree_id, content_id, image_id],
            ));
        }
        doc.finish()
    }
}

} // verus!
