use docwriter::content::{Content, LineCap, LineJoin, Op};
use docwriter::demo::WasmApp;
use docwriter::document::{DocState, Document, ObjectId, PdfError};
use docwriter::image::{
    embed_encoded, embed_image, encode_image, ColorSpace, EncodedImage, place_image, split_alpha, DecodedImage, Filter, PixelLayout,
    Placement, SourceFormat, DEFAULT_LEVEL,
};
use docwriter::objects::{catalog, stream, type1_font, PageTree, Rect};
use docwriter::page::{Annotation, AnnotationType, BorderType, PageBuilder};

fn find(hay: &[u8], needle: &[u8]) -> Option<usize> {
    hay.windows(needle.len()).position(|w| w == needle)
}

fn count(hay: &[u8], needle: &[u8]) -> usize {
    hay.windows(needle.len()).filter(|w| *w == needle).count()
}

fn text(b: &[u8]) -> String {
    String::from_utf8_lossy(b).into_owned()
}

/// A document with a catalog, an empty page tree and a font.
fn small_doc() -> Vec<u8> {
    let mut doc = Document::new();
    let cat = doc.allocate().unwrap();
    let tree = doc.allocate().unwrap();
    let font = doc.allocate().unwrap();
    doc.insert(cat, catalog(tree), vec![tree]).unwrap();
    doc.insert(tree, PageTree::new().finish(None), vec![]).unwrap();
    doc.insert(font, type1_font(&b"Helvetica".to_vec()), vec![]).unwrap();
    doc.set_root(cat).unwrap();
    doc.finish().unwrap()
}

/// The offsets listed in the cross-reference table, by object number.
fn xref_offsets(out: &[u8]) -> Vec<Option<usize>> {
    let start = find(out, b"xref\n").unwrap();
    let table = &out[start..];
    let first_nl = find(table, b"\n").unwrap();
    let second_nl = first_nl + 1 + find(&table[first_nl + 1..], b"\n").unwrap();
    let header = text(&table[first_nl + 1..second_nl]);
    let n: usize = header.split(' ').nth(1).unwrap().parse().unwrap();
    let entries = &table[second_nl + 1..];
    (0..n)
        .map(|i| {
            let e = &entries[i * 20..i * 20 + 20];
            if e[17] == b'n' {
                Some(text(&e[0..10]).parse().unwrap())
            } else {
                None
            }
        })
        .collect()
}

#[test]
fn test_create_pdf() {
    let mut app = WasmApp::new();
    let data = app.get_pdf().unwrap();
    assert!(data.starts_with(b"%PDF-1.7\n"));
    assert!(data.ends_with(b"%%EOF"));
}

#[test]
fn ids_start_at_one_and_increase() {
    let mut doc = Document::new();
    assert_eq!(doc.allocate(), Ok(ObjectId { num: 1 }));
    assert_eq!(doc.allocate(), Ok(ObjectId { num: 2 }));
    assert_eq!(doc.allocate(), Ok(ObjectId { num: 3 }));
}

#[test]
fn finished_document_refuses_everything() {
    let mut doc = Document::new();
    let cat = doc.allocate().unwrap();
    let tree = doc.allocate().unwrap();
    doc.insert(cat, catalog(tree), vec![]).unwrap();
    doc.set_root(cat).unwrap();
    let first = doc.finish().unwrap();
    let kept = first.clone();
    assert_eq!(doc.state_of(), DocState::Finished);
    assert_eq!(doc.insert(tree, vec![1, 2, 3], vec![]), Err(PdfError::Finished));
    assert_eq!(doc.allocate(), Err(PdfError::Finished));
    assert_eq!(doc.set_root(tree), Err(PdfError::Finished));
    assert_eq!(doc.finish(), Err(PdfError::Finished));
    assert_eq!(first, kept);
}

#[test]
fn insert_checks_identifiers() {
    let mut doc = Document::new();
    let a = doc.allocate().unwrap();
    assert_eq!(doc.insert(ObjectId { num: 0 }, vec![], vec![]), Err(PdfError::UnallocatedId));
    assert_eq!(doc.insert(ObjectId { num: 2 }, vec![], vec![]), Err(PdfError::UnallocatedId));
    assert_eq!(doc.insert(a, vec![65], vec![]), Ok(()));
    assert_eq!(doc.insert(a, vec![66], vec![]), Err(PdfError::DuplicateObject));
    assert_eq!(doc.set_root(ObjectId { num: 5 }), Err(PdfError::UnallocatedId));
}

#[test]
fn finish_needs_a_stored_root() {
    let mut doc = Document::new();
    assert_eq!(doc.finish(), Err(PdfError::MissingRoot));
    let a = doc.allocate().unwrap();
    doc.set_root(a).unwrap();
    assert_eq!(doc.finish(), Err(PdfError::MissingRoot));
    assert_eq!(doc.state_of(), DocState::Building);
    doc.insert(a, b"<< >>".to_vec(), vec![]).unwrap();
    assert!(doc.finish().is_ok());
}

#[test]
fn exact_output_of_one_object() {
    let mut doc = Document::new();
    let a = doc.allocate().unwrap();
    doc.insert(a, b"<< /Type /Catalog >>".to_vec(), vec![]).unwrap();
    doc.set_root(a).unwrap();
    let out = doc.finish().unwrap();
    let mut expected: Vec<u8> = b"%PDF-1.7\n%\x80\x80\x80\x80\n\n".to_vec();
    expected.extend_from_slice(b"1 0 obj\n<< /Type /Catalog >>\nendobj\n\n");
    expected.extend_from_slice(b"xref\n0 2\n0000000000 65535 f\r\n0000000016 00000 n\r\n");
    expected.extend_from_slice(b"trailer\n<< /Size 2 /Root 1 0 R >>\nstartxref\n53\n%%EOF");
    assert_eq!(text(&out), text(&expected));
}

#[test]
fn xref_offsets_locate_objects() {
    let out = small_doc();
    let offsets = xref_offsets(&out);
    assert_eq!(offsets.len(), 4);
    assert_eq!(offsets[0], None);
    for num in 1..4 {
        let off = offsets[num].unwrap();
        let head = format!("{} 0 obj\n", num);
        assert!(out[off..].starts_with(head.as_bytes()));
    }
    let sx = find(&out, b"startxref\n").unwrap();
    let tail = text(&out[sx + 10..out.len() - 6]);
    let xref_at: usize = tail.parse().unwrap();
    assert!(out[xref_at..].starts_with(b"xref\n"));
}

#[test]
fn abandoned_ids_are_free_entries() {
    let mut doc = Document::new();
    let a = doc.allocate().unwrap();
    let _unused = doc.allocate().unwrap();
    let c = doc.allocate().unwrap();
    doc.insert(a, catalog(c), vec![c]).unwrap();
    doc.insert(c, b"<< >>".to_vec(), vec![]).unwrap();
    doc.set_root(a).unwrap();
    let out = doc.finish().unwrap();
    let offsets = xref_offsets(&out);
    assert_eq!(offsets.len(), 4);
    assert!(offsets[1].is_some());
    assert_eq!(offsets[2], None);
    assert!(out[offsets[3].unwrap()..].starts_with(b"3 0 obj\n"));
    assert_eq!(find(&out, b"2 0 obj"), None);
}

#[test]
fn serializing_twice_gives_identical_bytes() {
    assert_eq!(small_doc(), small_doc());
    let mut app = WasmApp::new();
    assert_eq!(app.get_pdf().unwrap(), app.get_pdf().unwrap());
}

fn page_ready() -> PageBuilder {
    let mut page = PageBuilder::new();
    page.media_box(Rect::new(0, 0, 595000, 842000).unwrap());
    page.parent(ObjectId { num: 2 });
    page
}

#[test]
fn open_resources_block_the_page() {
    let mut page = page_ready();
    let mut res = page.resources();
    res.font(b"F1".to_vec(), ObjectId { num: 4 });
    assert_eq!(page.finish(), Err(PdfError::UnfinishedChildObject));
    page.end_resources(&res);
    let body = page.finish().unwrap();
    assert_eq!(
        text(&body),
        "<< /Type /Page /MediaBox [0 0 595 842] /Parent 2 0 R /Resources << /Font << /F1 4 0 R >> >> >>"
    );
}

#[test]
fn open_annotations_block_the_page() {
    let mut page = page_ready();
    let annots = page.annotations();
    assert_eq!(page.finish(), Err(PdfError::UnfinishedChildObject));
    page.end_annotations(&annots);
    assert_eq!(text(&page.finish().unwrap()), "<< /Type /Page /MediaBox [0 0 595 842] /Parent 2 0 R /Annots [ ] >>");
}

#[test]
fn unfinished_child_comes_before_missing_fields() {
    let mut page = PageBuilder::new();
    let _res = page.resources();
    assert_eq!(page.finish(), Err(PdfError::UnfinishedChildObject));
    let bare = PageBuilder::new();
    assert_eq!(bare.finish(), Err(PdfError::MissingField));
    let mut no_parent = PageBuilder::new();
    no_parent.media_box(Rect::new(0, 0, 10, 10).unwrap());
    assert_eq!(no_parent.finish(), Err(PdfError::MissingField));
}

#[test]
fn degenerate_rect_is_refused() {
    assert_eq!(Rect::new(0, 0, 0, 10), Err(PdfError::DegenerateRect));
    assert_eq!(Rect::new(5, 10, 6, 9), Err(PdfError::DegenerateRect));
    assert!(Rect::new(0, 0, 1, 1).is_ok());
}

#[test]
fn page_tree_count_follows_insertions() {
    let mut inner = PageTree::new();
    inner.push_page(ObjectId { num: 5 });
    inner.push_page(ObjectId { num: 6 });
    assert_eq!(inner.leaf_count(), 2);
    let mut root = PageTree::new();
    root.push_page(ObjectId { num: 3 });
    root.push_node(ObjectId { num: 4 }, &inner);
    root.push_page(ObjectId { num: 7 });
    assert_eq!(root.leaf_count(), 4);
    assert_eq!(
        text(&root.finish(None)),
        "<< /Type /Pages /Kids [ 3 0 R 4 0 R 7 0 R ] /Count 4 >>"
    );
    assert_eq!(
        text(&inner.finish(Some(ObjectId { num: 2 }))),
        "<< /Type /Pages /Parent 2 0 R /Kids [ 5 0 R 6 0 R ] /Count 2 >>"
    );
}

fn rgba_image() -> DecodedImage {
    DecodedImage {
        width: 2,
        height: 1,
        layout: PixelLayout::Rgba8,
        pixels: vec![10, 20, 30, 40, 50, 60, 70, 80],
    }
}

#[test]
fn split_alpha_separates_planes() {
    let (c, a) = split_alpha(&rgba_image().pixels);
    assert_eq!(c, vec![10, 20, 30, 50, 60, 70]);
    assert_eq!(a, vec![40, 80]);
}

#[test]
fn alpha_gives_two_image_objects() {
    let mut doc = Document::new();
    let id = embed_image(&mut doc, &rgba_image(), SourceFormat::Png, &vec![], DEFAULT_LEVEL).unwrap();
    assert_eq!(id, ObjectId { num: 1 });
    doc.set_root(id).unwrap();
    let out = doc.finish().unwrap();
    assert_eq!(count(&out, b"/Subtype /Image"), 2);
    assert_eq!(count(&out, b"/Width 2 /Height 1"), 2);
    assert_eq!(count(&out, b"/Filter /FlateDecode"), 2);
    assert!(find(&out, b"/ColorSpace /DeviceRGB").is_some());
    assert!(find(&out, b"/ColorSpace /DeviceGray").is_some());
    assert!(find(&out, b"/SMask 2 0 R").is_some());
}

#[test]
fn no_alpha_gives_one_image_object() {
    let img = DecodedImage { width: 1, height: 2, layout: PixelLayout::Rgb8, pixels: vec![1, 2, 3, 4, 5, 6] };
    let mut doc = Document::new();
    let id = embed_image(&mut doc, &img, SourceFormat::Png, &vec![], DEFAULT_LEVEL).unwrap();
    doc.set_root(id).unwrap();
    let out = doc.finish().unwrap();
    assert_eq!(count(&out, b"/Subtype /Image"), 1);
    assert_eq!(find(&out, b"/SMask"), None);
}

#[test]
fn raster_samples_are_compressed() {
    let img = DecodedImage { width: 4, height: 4, layout: PixelLayout::Gray8, pixels: vec![7; 16] };
    let enc = encode_image(&img, SourceFormat::Png, &vec![], DEFAULT_LEVEL).unwrap();
    assert_eq!(enc.filter, Filter::FlateDecode);
    assert_ne!(enc.color, img.pixels);
    assert_eq!(enc.color[0], 0x78);
    assert!(enc.mask.is_none());
    let enc = encode_image(&rgba_image(), SourceFormat::Png, &vec![], 9).unwrap();
    let mask = enc.mask.unwrap();
    assert_ne!(mask, vec![40, 80]);
    assert_eq!(mask[0], 0x78);
}

#[test]
fn transform_coded_source_passes_through() {
    let img = DecodedImage { width: 1, height: 1, layout: PixelLayout::Rgb8, pixels: vec![1, 2, 3] };
    let source = vec![0xff, 0xd8, 0xff, 0xe0, 9, 9];
    let enc = encode_image(&img, SourceFormat::Jpeg, &source, DEFAULT_LEVEL).unwrap();
    assert_eq!(enc.filter, Filter::DctDecode);
    assert_eq!(enc.color, source);
    assert!(enc.mask.is_none());
}

#[test]
fn image_errors() {
    let img = rgba_image();
    assert_eq!(encode_image(&img, SourceFormat::Other, &vec![], 6).err(), Some(PdfError::UnsupportedFormat));
    assert_eq!(encode_image(&img, SourceFormat::Jpeg, &vec![], 6).err(), Some(PdfError::UnsupportedFormat));
    let empty = DecodedImage { width: 0, height: 3, layout: PixelLayout::Rgb8, pixels: vec![] };
    assert_eq!(encode_image(&empty, SourceFormat::Png, &vec![], 6).err(), Some(PdfError::EmptyImage));
    let short = DecodedImage { width: 2, height: 2, layout: PixelLayout::Rgb8, pixels: vec![0; 11] };
    assert_eq!(encode_image(&short, SourceFormat::Png, &vec![], 6).err(), Some(PdfError::PixelDataMismatch));
    let mut doc = Document::new();
    assert_eq!(embed_image(&mut doc, &empty, SourceFormat::Png, &vec![], 6), Err(PdfError::EmptyImage));
    assert_eq!(doc.allocate(), Ok(ObjectId { num: 1 }));
}

#[test]
fn centering_on_a4() {
    let p = place_image(595000, 842000, 200000, 400, 200).unwrap();
    assert_eq!(p, Placement { width: 200000, height: 100000, x: 197500, y: 371000 });
}

#[test]
fn placement_errors_and_rounding() {
    assert_eq!(place_image(595000, 842000, 0, 4, 2), Err(PdfError::DegenerateRect));
    assert_eq!(place_image(595000, 842000, 100, 0, 2), Err(PdfError::EmptyImage));
    let p = place_image(100, 100, 201, 3, 1).unwrap();
    assert_eq!(p.height, 67);
    assert_eq!(p.x, -51);
    assert_eq!(p.y, 16);
}

#[test]
fn content_keeps_program_order() {
    let mut c = Content::new();
    for _ in 0..2 {
        c.push(Op::SaveState);
        c.push(Op::RestoreState);
    }
    c.push(Op::MoveTo(1000, 2500));
    c.push(Op::LineTo(-1500, 0));
    c.push(Op::Stroke);
    c.push(Op::SetFillRgb(0, 500, 1000));
    assert!(c.is_balanced());
    assert_eq!(text(&c.finish()), "q\nQ\nq\nQ\n1 2.5 m\n-1.5 0 l\nS\n0 0.5 1 rg\n");
}

#[test]
fn content_operators_and_numbers() {
    let mut c = Content::new();
    c.push(Op::BeginText);
    c.push(Op::SetFont(b"F1".to_vec(), 14000));
    c.push(Op::NextLine(108000, 734000));
    c.push(Op::Show(b"a(b)c\\".to_vec()));
    c.push(Op::EndText);
    c.push(Op::SetLineWidth(1));
    c.push(Op::SetLineJoin(LineJoin::Bevel));
    c.push(Op::SetLineCap(LineCap::Round));
    c.push(Op::Transform(200000, 0, 0, 100000, 197500, 371000));
    c.push(Op::XObject(b"Im1".to_vec()));
    c.push(Op::CubicTo(1, 10, 100, -7, 0, 123456));
    c.push(Op::Fill);
    assert_eq!(
        text(&c.finish()),
        "BT\n/F1 14 Tf\n108 734 Td\n(a\\(b\\)c\\\\) Tj\nET\n0.001 w\n2 j\n1 J\n200 0 0 100 197.5 371 cm\n/Im1 Do\n0.001 0.01 0.1 -0.007 0 123.456 c\nf\n"
    );
}

#[test]
fn unbalanced_content_is_reported() {
    let mut c = Content::new();
    c.push(Op::RestoreState);
    c.push(Op::SaveState);
    assert!(!c.is_balanced());
    let mut d = Content::new();
    d.push(Op::SaveState);
    assert!(!d.is_balanced());
}

#[test]
fn annotation_dictionary() {
    let mut a = Annotation::new(AnnotationType::Link, Rect::new(215000, 730000, 251000, 748000).unwrap());
    a.contents = Some(b"Link".to_vec());
    a.color = Some((0, 0, 1000));
    a.uri = Some(b"https://www.rust-lang.org/".to_vec());
    a.border = Some((2000, BorderType::Underline));
    assert_eq!(
        text(&a.finish()),
        "<< /Type /Annot /Subtype /Link /Rect [215 730 251 748] /Contents (Link) /C [0 0 1] /A << /Type /Action /S /URI /URI (https://www.rust-lang.org/) >> /BS << /Type /Border /W 2 /S /U >> >>"
    );
}

#[test]
fn stream_and_font_objects() {
    assert_eq!(text(&stream(&b"q\nQ\n".to_vec())), "<< /Length 4 >>\nstream\nq\nQ\n\nendstream");
    assert_eq!(text(&type1_font(&b"Helvetica".to_vec())), "<< /Type /Font /Subtype /Type1 /BaseFont /Helvetica >>");
    assert_eq!(text(&catalog(ObjectId { num: 2 })), "<< /Type /Catalog /Pages 2 0 R >>");
}

#[test]
fn image_document_has_centered_image() {
    let out = WasmApp::get_pdf_image(&rgba_image(), SourceFormat::Png, &vec![]).unwrap();
    assert!(find(&out, b"200 0 0 100 197.5 371 cm\n/Im1 Do\n").is_some());
    assert!(find(&out, b"/Contents 6 0 R /Resources << /XObject << /Im1 4 0 R >> >>").is_some());
    assert!(find(&out, b"/SMask 5 0 R").is_some());
    let offsets = xref_offsets(&out);
    assert_eq!(offsets.len(), 7);
    assert!(out[offsets[4].unwrap()..].starts_with(b"4 0 obj\n<< /Type /XObject /Subtype /Image /Width 2 /Height 1 /ColorSpace /DeviceRGB"));
    assert!(out[offsets[5].unwrap()..].starts_with(b"5 0 obj\n<< /Type /XObject /Subtype /Image /Width 2 /Height 1 /ColorSpace /DeviceGray"));
    assert!(out[offsets[6].unwrap()..].starts_with(b"6 0 obj\n<< /Length "));
    assert_eq!(
        WasmApp::get_pdf_image(&rgba_image(), SourceFormat::Other, &vec![]),
        Err(PdfError::UnsupportedFormat)
    );
}

#[test]
fn image_document_without_alpha_leaves_mask_number_free() {
    let img = DecodedImage { width: 400, height: 200, layout: PixelLayout::Rgb8, pixels: vec![9; 240000] };
    let source = vec![0xff, 0xd8, 0xff, 0xe0, 1, 2, 3];
    let out = WasmApp::get_pdf_image(&img, SourceFormat::Jpeg, &source).unwrap();
    let offsets = xref_offsets(&out);
    assert_eq!(offsets.len(), 7);
    assert_eq!(offsets[5], None);
    assert!(find(&out, b"/Size 7 /Root 1 0 R").is_some());
    let image = b"4 0 obj\n<< /Type /XObject /Subtype /Image /Width 400 /Height 200 /ColorSpace /DeviceRGB /BitsPerComponent 8 /Filter /DCTDecode /Length 7 >>\nstream\n\xff\xd8\xff\xe0\x01\x02\x03\nendstream";
    assert!(out[offsets[4].unwrap()..].starts_with(image));
    assert!(out[offsets[6].unwrap()..].starts_with(b"6 0 obj\n<< /Length 37 >>\nstream\nq\n200 0 0 100 197.5 371 cm\n/Im1 Do\nQ\n"));
    assert_eq!(find(&out, b"/SMask"), None);
    assert_eq!(out, WasmApp::get_pdf_image(&img, SourceFormat::Jpeg, &source).unwrap());
}

#[test]
fn encoded_streams_become_image_objects() {
    let enc = EncodedImage {
        filter: Filter::FlateDecode,
        color_space: ColorSpace::DeviceRgb,
        color: vec![65, 66],
        mask: Some(vec![67]),
    };
    let mut doc = Document::new();
    let id = embed_encoded(&mut doc, 3, 4, &enc).unwrap();
    assert_eq!(id, ObjectId { num: 1 });
    doc.set_root(id).unwrap();
    let out = doc.finish().unwrap();
    assert!(find(&out, b"1 0 obj\n<< /Type /XObject /Subtype /Image /Width 3 /Height 4 /ColorSpace /DeviceRGB /BitsPerComponent 8 /Filter /FlateDecode /SMask 2 0 R /Length 2 >>\nstream\nAB\nendstream\nendobj").is_some());
    assert!(find(&out, b"2 0 obj\n<< /Type /XObject /Subtype /Image /Width 3 /Height 4 /ColorSpace /DeviceGray /BitsPerComponent 8 /Filter /FlateDecode /Length 1 >>\nstream\nC\nendstream\nendobj").is_some());
}

#[test]
fn sample_document_objects() {
    let mut app = WasmApp::new();
    let out = app.get_pdf().unwrap();
    let page = b"3 0 obj\n<< /Type /Page /MediaBox [0 0 595 842] /Parent 2 0 R /Contents 5 0 R /Resources << /Font << /F1 4 0 R >> >> /Annots [ << /Type /Annot /Subtype /Link /Rect [215 730 251 748] /Contents (Link to the Rust project web page) /C [0 0 1] /A << /Type /Action /S /URI /URI (https://www.rust-lang.org/) >> /BS << /Type /Border /W 2 /S /U >> >> ] >>\nendobj";
    assert!(find(&out, page).is_some());
    assert!(find(&out, b"1 0 obj\n<< /Type /Catalog /Pages 2 0 R >>").is_some());
    assert!(find(&out, b"2 0 obj\n<< /Type /Pages /Kids [ 3 0 R ] /Count 1 >>").is_some());
    assert!(find(&out, b"BT\n/F1 14 Tf\n108 734 Td\n(Hello World from Rust!) Tj\nET\nq\n1 w\n0 j\n0 J\n0.5 0 1 RG\n100 200 m\n200 500 l\n10 200 l\n40 250 100 300 150 200 c\n0 0 l\nS\nQ\n").is_some());
    let offsets = xref_offsets(&out);
    assert_eq!(offsets.len(), 6);
    for num in 1..6 {
        let head = format!("{} 0 obj\n", num);
        assert!(out[offsets[num].unwrap()..].starts_with(head.as_bytes()));
    }
}

#[test]
fn rectangles_without_area_are_refused_by_builders() {
    let flat = Rect { x1: 0, y1: 5, x2: 10, y2: 5 };
    let mut page = PageBuilder::new();
    page.media_box(flat);
    page.parent(ObjectId { num: 2 });
    assert_eq!(page.finish(), Err(PdfError::DegenerateRect));
    let mut page = page_ready();
    let mut annots = page.annotations();
    let a = Annotation::new(AnnotationType::Text, flat);
    assert_eq!(annots.push(&a), Err(PdfError::DegenerateRect));
    let b = Annotation::new(AnnotationType::Text, Rect::new(1, 1, 2, 2).unwrap());
    assert_eq!(annots.push(&b), Ok(()));
    page.end_annotations(&annots);
    assert_eq!(
        text(&page.finish().unwrap()),
        "<< /Type /Page /MediaBox [0 0 595 842] /Parent 2 0 R /Annots [ << /Type /Annot /Subtype /Text /Rect [0.001 0.001 0.002 0.002] >> ] >>"
    );
}

#[test]
fn reference_to_missing_object_is_refused() {
    let mut doc = Document::new();
    let cat = doc.allocate().unwrap();
    let tree = doc.allocate().unwrap();
    doc.insert(cat, catalog(tree), vec![tree]).unwrap();
    doc.set_root(cat).unwrap();
    assert_eq!(doc.finish(), Err(PdfError::MissingReference));
    assert_eq!(doc.state_of(), DocState::Building);
    let mut doc2 = Document::new();
    let cat2 = doc2.allocate().unwrap();
    doc2.insert(cat2, catalog(ObjectId { num: 99 }), vec![ObjectId { num: 99 }]).unwrap();
    doc2.set_root(cat2).unwrap();
    assert_eq!(doc2.finish(), Err(PdfError::MissingReference));
    doc.insert(tree, PageTree::new().finish(None), vec![]).unwrap();
    assert!(doc.finish().is_ok());
}
