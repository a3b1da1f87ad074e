//! The page builder with its two sub-builders, the resource map and the
//! annotation list, which must be finished before the page is.
use vstd::prelude::*;
use crate::bytes::{escaped, lit, push_bytes, push_lit, push_real, push_text, real_bytes};
use crate::document::{ObjectId, PdfError};
use crate::objects::{rect_bytes, ref_bytes, Rect};

verus! {

/// A resource entry: a name and the object it stands for.
pub struct Entry {
    pub name: Vec<u8>,
    pub id: ObjectId,
}

/// Each entry as ` /name N 0 R`.
pub open spec fn entries_bytes(es: Seq<Entry>) -> Seq<u8>
    decreases es.len(),
{
    if es.len() == 0 {
        seq![]
    } else {
        entries_bytes(es.drop_last()) + lit(" /") + es.last().name@ + seq![32u8] + ref_bytes(
            es.last().id,
        )
    }
}

fn push_entries(out: &mut Vec<u8>, es: &Vec<Entry>)
    ensures
        final(out)@ == old(out)@ + entries_bytes(es@),
{
    let mut i: usize = 0;
    while i < es.len()
        invariant
            i <= es@.len(),
            out@ == old(out)@ + entries_bytes(es@.subrange(0, i as int)),
        decreases es@.len() - i,
    {
        push_lit(out, " /");
        push_bytes(out, es[i].name.as_slice());
        out.push(32u8);
        crate::bytes::push_nat(out, es[i].id.num as u64);
        push_lit(out, " 0 R");
        i = i + 1;
        assert(es@.subrange(0, i as int).drop_last() =~= es@.subrange(0, i - 1 as int));
        assert(out@ =~= old(out)@ + entries_bytes(es@.subrange(0, i as int)));
    }
    assert(es@.subrange(0, es@.len() as int) =~= es@);
}

/// A sub-dictionary of the resource map, left out when it has no entry.
pub open spec fn category_bytes(key: Seq<u8>, es: Seq<Entry>) -> Seq<u8> {
    if es.len() == 0 {
        seq![]
    } else {
        key + lit(" <<") + entries_bytes(es) + lit(" >>")
    }
}

/// The resource map of a page, by category.
pub open spec fn resources_bytes(fonts: Seq<Entry>, images: Seq<Entry>) -> Seq<u8> {
    lit("<<") + category_bytes(lit(" /Font"), fonts) + category_bytes(lit(" /XObject"), images)
        + lit(" >>")
}

/// The resource map of a page under construction.
pub struct Resources {
    fonts: Vec<Entry>,
    images: Vec<Entry>,
}

impl Resources {
    pub closed spec fn fonts(&self) -> Seq<Entry> {
        self.fonts@
    }

    pub closed spec fn images(&self) -> Seq<Entry> {
        self.images@
    }

    /// Maps a font name to a font object.
    pub fn font(&mut self, name: Vec<u8>, id: ObjectId)
        ensures
            final(self).fonts() == old(self).fonts().push(Entry { name, id }),
            final(self).images() == old(self).images(),
    {
        self.fonts.push(Entry { name, id });
    }

    /// Maps an image name to an image object.
    pub fn x_object(&mut self, name: Vec<u8>, id: ObjectId)
        ensures
            final(self).images() == old(self).images().push(Entry { name, id }),
            final(self).fonts() == old(self).fonts(),
    {
        self.images.push(Entry { name, id });
    }

    pub fn finish(&self) -> (r: Vec<u8>)
        ensures
            r@ == resources_bytes(self.fonts(), self.images()),
    {
        let mut out: Vec<u8> = Vec::new();
        push_lit(&mut out, "<<");
        let ghost a = out@;
        if self.fonts.len() > 0 {
            push_lit(&mut out, " /Font");
            push_lit(&mut out, " <<");
            push_entries(&mut out, &self.fonts);
            push_lit(&mut out, " >>");
        }
        assert(out@ =~= a + category_bytes(lit(" /Font"), self.fonts@));
        let ghost b = out@;
        if self.images.len() > 0 {
            push_lit(&mut out, " /XObject");
            push_lit(&mut out, " <<");
            push_entries(&mut out, &self.images);
            push_lit(&mut out, " >>");
        }
        assert(out@ =~= b + category_bytes(lit(" /XObject"), self.images@));
        push_lit(&mut out, " >>");
        assert(out@ =~= resources_bytes(self.fonts(), self.images()));
        out
    }
}

/// The kind of an annotation.
#[derive(Clone, Copy, Debug, PartialEq, Eq, Structural)]
pub enum AnnotationType {
    Link,
    Text,
}

/// How an annotation's border is drawn.
#[derive(Clone, Copy, Debug, PartialEq, Eq, Structural)]
pub enum BorderType {
    Solid,
    Dashed,
    Underline,
}

pub open spec fn subtype_bytes(t: AnnotationType) -> Seq<u8> {
    match t {
        AnnotationType::Link => lit("Link"),
        AnnotationType::Text => lit("Text"),
    }
}

pub open spec fn border_bytes(t: BorderType) -> Seq<u8> {
    match t {
        BorderType::Solid => lit("S"),
        BorderType::Dashed => lit("D"),
        BorderType::Underline => lit("U"),
    }
}

/// An annotation: a subtype and a rectangle, with optional text, color, a
/// link action to a URI, and a border style (width and kind).
pub struct Annotation {
    pub subtype: AnnotationType,
    pub rect: Rect,
    pub contents: Option<Vec<u8>>,
    pub color: Option<(i64, i64, i64)>,
    pub uri: Option<Vec<u8>>,
    pub border: Option<(i64, BorderType)>,
}

pub open spec fn contents_part(c: Option<Seq<u8>>) -> Seq<u8> {
    match c {
        Some(t) => lit(" /Contents ") + seq![40u8] + escaped(t) + seq![41u8],
        None => seq![],
    }
}

pub open spec fn color_part(c: Option<(i64, i64, i64)>) -> Seq<u8> {
    match c {
        Some((r, g, b)) => lit(" /C [") + real_bytes(r as int) + seq![32u8] + real_bytes(g as int)
            + seq![32u8] + real_bytes(b as int) + lit("]"),
        None => seq![],
    }
}

pub open spec fn action_part(u: Option<Seq<u8>>) -> Seq<u8> {
    match u {
        Some(u) => lit(" /A << /Type /Action /S /URI /URI ") + seq![40u8] + escaped(u) + seq![
            41u8,
        ] + lit(" >>"),
        None => seq![],
    }
}

pub open spec fn border_part(b: Option<(i64, BorderType)>) -> Seq<u8> {
    match b {
        Some((w, t)) => lit(" /BS << /Type /Border /W ") + real_bytes(w as int) + lit(" /S /")
            + border_bytes(t) + lit(" >>"),
        None => seq![],
    }
}

/// The annotation's dictionary, with each optional part present only when set.
pub open spec fn annotation_bytes(a: Annotation) -> Seq<u8> {
    lit("<< /Type /Annot /Subtype /") + subtype_bytes(a.subtype) + lit(" /Rect ") + rect_bytes(
        a.rect,
    ) + contents_part(opt_view(a.contents)) + color_part(a.color) + action_part(opt_view(a.uri)) + border_part(
        a.border,
    ) + lit(" >>")
}

fn push_contents_part(out: &mut Vec<u8>, c: &Option<Vec<u8>>)
    ensures
        final(out)@ == old(out)@ + contents_part(opt_view(*c)),
{
    match c {
        Some(t) => {
            push_lit(out, " /Contents ");
            push_text(out, t.as_slice());
        },
        None => {},
    }
    assert(out@ =~= old(out)@ + contents_part(opt_view(*c)));
}

fn push_color_part(out: &mut Vec<u8>, c: Option<(i64, i64, i64)>)
    ensures
        final(out)@ == old(out)@ + color_part(c),
{
    match c {
        Some((r, g, b)) => {
            push_lit(out, " /C [");
            push_real(out, r);
            out.push(32u8);
            push_real(out, g);
            out.push(32u8);
            push_real(out, b);
            push_lit(out, "]");
        },
        None => {},
    }
    assert(out@ =~= old(out)@ + color_part(c));
}

fn push_action_part(out: &mut Vec<u8>, u: &Option<Vec<u8>>)
    ensures
        final(out)@ == old(out)@ + action_part(opt_view(*u)),
{
    match u {
        Some(u) => {
            push_lit(out, " /A << /Type /Action /S /URI /URI ");
            push_text(out, u.as_slice());
            push_lit(out, " >>");
        },
        None => {},
    }
    assert(out@ =~= old(out)@ + action_part(opt_view(*u)));
}

fn push_border_part(out: &mut Vec<u8>, b: Option<(i64, BorderType)>)
    ensures
        final(out)@ == old(out)@ + border_part(b),
{
    match b {
        Some((w, t)) => {
            push_lit(out, " /BS << /Type /Border /W ");
            push_real(out, w);
            push_lit(out, " /S /");
            match t {
                BorderType::Solid => push_lit(out, "S"),
                BorderType::Dashed => push_lit(out, "D"),
                BorderType::Underline => push_lit(out, "U"),
            }
            push_lit(out, " >>");
        },
        None => {},
    }
    assert(out@ =~= old(out)@ + border_part(b));
}

impl Annotation {
    /// An annotation with no optional part set.
    pub fn new(subtype: AnnotationType, rect: Rect) -> (r: Annotation)
        ensures
            r.subtype == subtype,
            r.rect == rect,
            r.contents is None,
            r.color is None,
            r.uri is None,
            r.border is None,
    {
        Annotation { subtype, rect, contents: None, color: None, uri: None, border: None }
    }

    /// The annotation's dictionary.
    pub fn finish(&self) -> (r: Vec<u8>)
        ensures
            r@ == annotation_bytes(*self),
    {
        let mut out: Vec<u8> = Vec::new();
        push_lit(&mut out, "<< /Type /Annot /Subtype /");
        match self.subtype {
            AnnotationType::Link => push_lit(&mut out, "Link"),
            AnnotationType::Text => push_lit(&mut out, "Text"),
        }
        push_lit(&mut out, " /Rect ");
        crate::objects::push_rect_bytes(&mut out, self.rect);
        push_contents_part(&mut out, &self.contents);
        push_color_part(&mut out, self.color);
        push_action_part(&mut out, &self.uri);
        push_border_part(&mut out, self.border);
        push_lit(&mut out, " >>");
        assert(out@ =~= annotation_bytes(*self));
        out
    }
}

/// Each finished annotation, preceded by a space, between brackets.
pub open spec fn items_bytes(items: Seq<Seq<u8>>) -> Seq<u8>
    decreases items.len(),
{
    if items.len() == 0 {
        seq![]
    } else {
        items_bytes(items.drop_last()) + seq![32u8] + items.last()
    }
}

pub open spec fn annotations_bytes(items: Seq<Seq<u8>>) -> Seq<u8> {
    seq![91u8] + items_bytes(items) + lit(" ]")
}

/// The annotation list of a page under construction.
pub struct Annotations {
    items: Vec<Vec<u8>>,
}

impl Annotations {
    /// The finished annotation dictionaries, in order.
    pub closed spec fn items(&self) -> Seq<Seq<u8>> {
        self.items@.map_values(|v: Vec<u8>| v@)
    }

    /// Finishes an annotation into the list; one whose rectangle has no area
    /// is refused.
    pub fn push(&mut self, a: &Annotation) -> (r: Result<(), PdfError>)
        ensures
            !a.rect.valid() ==> r == Err::<(), PdfError>(PdfError::DegenerateRect) && final(self).items()
                == old(self).items(),
            a.rect.valid() ==> r == Ok::<(), PdfError>(()) && final(self).items()
                == old(self).items().push(annotation_bytes(*a)),
    {
        if !(a.rect.x1 < a.rect.x2 && a.rect.y1 < a.rect.y2) {
            return Err(PdfError::DegenerateRect);
        }
        let body = a.finish();
        self.items.push(body);
        assert(self.items() =~= old(self).items().push(annotation_bytes(*a)));
        Ok(())
    }

    pub fn finish(&self) -> (r: Vec<u8>)
        ensures
            r@ == annotations_bytes(self.items()),
    {
        let mut out: Vec<u8> = Vec::new();
        out.push(91u8);
        let ghost open_at = out@;
        let ghost items = self.items();
        let mut i: usize = 0;
        while i < self.items.len()
            invariant
                i <= self.items@.len(),
                items == self.items@.map_values(|v: Vec<u8>| v@),
                out@ == open_at + items_bytes(items.subrange(0, i as int)),
            decreases self.items@.len() - i,
        {
            out.push(32u8);
            push_bytes(&mut out, self.items[i].as_slice());
            i = i + 1;
            assert(items.subrange(0, i as int).drop_last() =~= items.subrange(0, i - 1 as int));
            assert(out@ =~= open_at + items_bytes(items.subrange(0, i as int)));
        }
        assert(items.subrange(0, items.len() as int) =~= items);
        push_lit(&mut out, " ]");
        assert(out@ =~= annotations_bytes(items));
        out
    }
}

pub open spec fn opt_ref_part(key: Seq<u8>, id: Option<ObjectId>) -> Seq<u8> {
    match id {
        Some(i) => key + ref_bytes(i),
        None => seq![],
    }
}

pub open spec fn opt_part(key: Seq<u8>, v: Option<Seq<u8>>) -> Seq<u8> {
    match v {
        Some(b) => key + b,
        None => seq![],
    }
}

/// A page's dictionary.
pub open spec fn page_bytes(
    media_box: Rect,
    parent: ObjectId,
    contents: Option<ObjectId>,
    resources: Option<Seq<u8>>,
    annots: Option<Seq<u8>>,
) -> Seq<u8> {
    lit("<< /Type /Page /MediaBox ") + rect_bytes(media_box) + lit(" /Parent ") + ref_bytes(parent)
        + opt_ref_part(lit(" /Contents "), contents) + opt_part(lit(" /Resources "), resources)
        + opt_part(lit(" /Annots "), annots) + lit(" >>")
}

pub open spec fn opt_view(v: Option<Vec<u8>>) -> Option<Seq<u8>> {
    match v {
        Some(b) => Some(b@),
        None => None,
    }
}

/// The bytes of a page's dictionary.
fn page_dict(
    mb: Rect,
    parent: ObjectId,
    contents: Option<ObjectId>,
    resources: &Option<Vec<u8>>,
    annots: &Option<Vec<u8>>,
) -> (r: Vec<u8>)
    ensures
        r@ == page_bytes(mb, parent, contents, opt_view(*resources), opt_view(*annots)),
{
    let mut out: Vec<u8> = Vec::new();
    push_lit(&mut out, "<< /Type /Page /MediaBox ");
    crate::objects::push_rect_bytes(&mut out, mb);
    push_lit(&mut out, " /Parent ");
    crate::objects::push_ref(&mut out, parent);
    let ghost s1 = out@;
    match contents {
        Some(c) => {
            push_lit(&mut out, " /Contents ");
            crate::objects::push_ref(&mut out, c);
        },
        None => {},
    }
    assert(out@ =~= s1 + opt_ref_part(lit(" /Contents "), contents));
    let ghost s2 = out@;
    match resources {
        Some(b) => {
            push_lit(&mut out, " /Resources ");
            push_bytes(&mut out, b.as_slice());
        },
        None => {},
    }
    assert(out@ =~= s2 + opt_part(lit(" /Resources "), opt_view(*resources)));
    let ghost s3 = out@;
    match annots {
        Some(b) => {
            push_lit(&mut out, " /Annots ");
            push_bytes(&mut out, b.as_slice());
        },
        None => {},
    }
    assert(out@ =~= s3 + opt_part(lit(" /Annots "), opt_view(*annots)));
    push_lit(&mut out, " >>");
    assert(out@ =~= page_bytes(
        mb,
        parent,
        contents,
        opt_view(*resources),
        opt_view(*annots),
    ));
    out
}

/// A page under construction. Its resource map and annotation list are
/// sub-builders: opening one marks it open on the page until it is ended.
pub struct PageBuilder {
    media_box: Option<Rect>,
    parent: Option<ObjectId>,
    contents: Option<ObjectId>,
    resources: Option<Vec<u8>>,
    annots: Option<Vec<u8>>,
    resources_open: bool,
    annots_open: bool,
}

impl PageBuilder {
    pub closed spec fn box_of(&self) -> Option<Rect> {
        self.media_box
    }

    pub closed spec fn parent_of(&self) -> Option<ObjectId> {
        self.parent
    }

    pub closed spec fn contents_of(&self) -> Option<ObjectId> {
        self.contents
    }

    /// The finished resource map, once ended.
    pub closed spec fn resources_of(&self) -> Option<Seq<u8>> {
        opt_view(self.resources)
    }

    /// The finished annotation list, once ended.
    pub closed spec fn annots_of(&self) -> Option<Seq<u8>> {
        opt_view(self.annots)
    }

    /// Whether the resource map was opened and not yet ended.
    pub closed spec fn resources_pending(&self) -> bool {
        self.resources_open
    }

    /// Whether the annotation list was opened and not yet ended.
    pub closed spec fn annots_pending(&self) -> bool {
        self.annots_open
    }

    /// Whether a sub-builder was opened and not yet ended.
    pub open spec fn open_child(&self) -> bool {
        self.resources_pending() || self.annots_pending()
    }

    pub fn new() -> (r: PageBuilder)
        ensures
            r.box_of() is None,
            r.parent_of() is None,
            r.contents_of() is None,
            r.resources_of() is None,
            r.annots_of() is None,
            !r.resources_pending(),
            !r.annots_pending(),
    {
        PageBuilder {
            media_box: None,
            parent: None,
            contents: None,
            resources: None,
            annots: None,
            resources_open: false,
            annots_open: false,
        }
    }

    pub fn media_box(&mut self, r: Rect)
        ensures
            final(self).box_of() == Some(r),
            final(self).parent_of() == old(self).parent_of(),
            final(self).contents_of() == old(self).contents_of(),
            final(self).resources_of() == old(self).resources_of(),
            final(self).annots_of() == old(self).annots_of(),
            final(self).resources_pending() == old(self).resources_pending(),
            final(self).annots_pending() == old(self).annots_pending(),
    {
        self.media_box = Some(r);
    }

    pub fn parent(&mut self, id: ObjectId)
        ensures
            final(self).box_of() == old(self).box_of(),
            final(self).parent_of() == Some(id),
            final(self).contents_of() == old(self).contents_of(),
            final(self).resources_of() == old(self).resources_of(),
            final(self).annots_of() == old(self).annots_of(),
            final(self).resources_pending() == old(self).resources_pending(),
            final(self).annots_pending() == old(self).annots_pending(),
    {
        self.parent = Some(id);
    }

    pub fn contents(&mut self, id: ObjectId)
        ensures
            final(self).box_of() == old(self).box_of(),
            final(self).parent_of() == old(self).parent_of(),
            final(self).contents_of() == Some(id),
            final(self).resources_of() == old(self).resources_of(),
            final(self).annots_of() == old(self).annots_of(),
            final(self).resources_pending() == old(self).resources_pending(),
            final(self).annots_pending() == old(self).annots_pending(),
    {
        self.contents = Some(id);
    }

    /// Opens the resource map; it stays open until `end_resources`.
    pub fn resources(&mut self) -> (r: Resources)
        ensures
            final(self).box_of() == old(self).box_of(),
            final(self).parent_of() == old(self).parent_of(),
            final(self).contents_of() == old(self).contents_of(),
            final(self).resources_of() == old(self).resources_of(),
            final(self).annots_of() == old(self).annots_of(),
            final(self).resources_pending(),
            final(self).annots_pending() == old(self).annots_pending(),
            r.fonts() == Seq::<Entry>::empty(),
            r.images() == Seq::<Entry>::empty(),
    {
        self.resources_open = true;
        Resources { fonts: Vec::new(), images: Vec::new() }
    }

    /// Ends the resource map, embedding its finished form in the page.
    pub fn end_resources(&mut self, res: &Resources)
        ensures
            final(self).box_of() == old(self).box_of(),
            final(self).parent_of() == old(self).parent_of(),
            final(self).contents_of() == old(self).contents_of(),
            final(self).resources_of() == Some(resources_bytes(res.fonts(), res.images())),
            final(self).annots_of() == old(self).annots_of(),
            !final(self).resources_pending(),
            final(self).annots_pending() == old(self).annots_pending(),
    {
        self.resources = Some(res.finish());
        self.resources_open = false;
    }

    /// Opens the annotation list; it stays open until `end_annotations`.
    pub fn annotations(&mut self) -> (r: Annotations)
        ensures
            final(self).box_of() == old(self).box_of(),
            final(self).parent_of() == old(self).parent_of(),
            final(self).contents_of() == old(self).contents_of(),
            final(self).resources_of() == old(self).resources_of(),
            final(self).annots_of() == old(self).annots_of(),
            final(self).resources_pending() == old(self).resources_pending(),
            final(self).annots_pending(),
            r.items() == Seq::<Seq<u8>>::empty(),
    {
        self.annots_open = true;
        let r = Annotations { items: Vec::new() };
        assert(r.items() =~= Seq::<Seq<u8>>::empty());
        r
    }

    /// Ends the annotation list, embedding its finished form in the page.
    pub fn end_annotations(&mut self, a: &Annotations)
        ensures
            final(self).box_of() == old(self).box_of(),
            final(self).parent_of() == old(self).parent_of(),
            final(self).contents_of() == old(self).contents_of(),
            final(self).resources_of() == old(self).resources_of(),
            final(self).annots_of() == Some(annotations_bytes(a.items())),
            final(self).resources_pending() == old(self).resources_pending(),
            !final(self).annots_pending(),
    {
        self.annots = Some(a.finish());
        self.annots_open = false;
    }

    /// The page's dictionary. A page with a sub-builder still open is refused
    /// first; then one without media box or parent; then one whose media box
    /// has no area.
    pub fn finish(&self) -> (r: Result<Vec<u8>, PdfError>)
        ensures
            self.open_child() ==> r == Err::<Vec<u8>, PdfError>(PdfError::UnfinishedChildObject),
            !self.open_child() && (self.box_of() is None || self.parent_of() is None) ==> r == Err::<
                Vec<u8>,
                PdfError,
            >(PdfError::MissingField),
            !self.open_child() && self.box_of() is Some && self.parent_of() is Some && !self.box_of()->0.valid() ==> r == Err::<
                Vec<u8>,
                PdfError,
            >(PdfError::DegenerateRect),
            !self.open_child() && self.box_of() is Some && self.parent_of() is Some && self.box_of()->0.valid() ==> r is Ok
                && r->Ok_0@ == page_bytes(
                self.box_of()->0,
                self.parent_of()->0,
                self.contents_of(),
                self.resources_of(),
                self.annots_of(),
            ),
    {
        if self.resources_open || self.annots_open {
            return Err(PdfError::UnfinishedChildObject);
        }
        let (mb, parent) = match (self.media_box, self.parent) {
            (Some(mb), Some(p)) => (mb, p),
            _ => {
                return Err(PdfError::MissingField);
            },
        };
        if !(mb.x1 < mb.x2 && mb.y1 < mb.y2) {
            return Err(PdfError::DegenerateRect);
        }
        Ok(page_dict(mb, parent, self.contents, &self.resources, &self.annots))
    }
}

} // verus!
